//! The sextic extension in circuit form.

use crate::circuit::builder::{
    appends, appends_arithmetic, satisfies, CircuitBuilder, Gate,
};
use crate::circuit::witness::{
    generator_input, option_values, options_wf, GeneratedValues, PartitionWitness,
};
use crate::fields::fq2_target::Fq2Target;
use crate::fields::fq_target::{BoolTarget, FqTarget};
use crate::math::formulas::{
    convolution, fold_back, lemma_schoolbook_product, lemma_sparse_product_01,
    lemma_sparse_product_1, quartic_add, quartic_sub, Quartic,
};
use crate::math::ring::lemma_fq6_inverse_is_fq6_inv;
use crate::math::tower::{
    fq6_add, fq6_canonical, fq6_coefficients, fq6_embed_01, fq6_embed_1, fq6_inv,
    fq6_is_inverse, fq6_mul, fq6_mul_by_nonresidue, fq6_neg, fq6_one, fq6_sub, fq6_zero,
    Fq2Value, Fq6Value,
};
use crate::native::fields::{Fq, Fq6};
use crate::utils::my_fq6::MyFq6;
use vstd::prelude::*;

verus! {

/// An element of the sextic extension on six wires, which carry its
/// coefficients of `1`, `v`, `v^2`, `u`, `u v`, `u v^2`, in this order.
#[derive(Clone, Copy, Debug, PartialEq, Eq)]
pub struct Fq6Target {
    pub coeffs: [FqTarget; 6],
}

/// Computes the inverse of the element on the wires `x` when the witness is
/// filled, and writes it onto the wires `inv`.
#[derive(Clone, Copy, Debug)]
pub struct Fq6InverseGenerator {
    pub x: Fq6Target,
    pub inv: Fq6Target,
}

impl Fq6InverseGenerator {
    /// The name under which the generator is known.
    pub fn id(&self) -> (r: String)
        ensures
            r@ == "Fq6InverseGenerator"@,
    {
        "Fq6InverseGenerator".to_string()
    }

    /// The wires that must have a value before the generator can run.
    pub fn dependencies(&self) -> (r: Vec<usize>)
        ensures
            r@ == self.x.spec_wires()@,
    {
        let wires = self.x.wires();
        let r = vec![wires[0], wires[1], wires[2], wires[3], wires[4], wires[5]];
        assert(r@ =~= self.x.spec_wires()@);
        r
    }

    /// The wires that the generator reads all have a value.
    pub open spec fn ready(&self, witness: &PartitionWitness) -> bool {
        &&& options_wf(witness.values@)
        &&& forall|k: int|
            0 <= k < 6 ==> (#[trigger] self.x.coeffs[k]).wire < witness.values.len()
                && witness.values[self.x.coeffs[k].wire as int] is Some
    }

    /// The element that the generator reads.
    pub open spec fn spec_input(&self, witness: &PartitionWitness) -> Fq6Value {
        generator_input(option_values(witness.values@), self.x.spec_wires())
    }

    /// The element that the generator reads.
    pub fn input(&self, witness: &PartitionWitness) -> (r: Fq6)
        requires
            self.ready(witness),
        ensures
            r.wf(),
            r@ == self.spec_input(witness),
    {
        let x = &self.x.coeffs;
        let coeffs = [
            witness.get_target(x[0]),
            witness.get_target(x[1]),
            witness.get_target(x[2]),
            witness.get_target(x[3]),
            witness.get_target(x[4]),
            witness.get_target(x[5]),
        ];
        let x = MyFq6 { coeffs };
        x.into()
    }

    /// Computes the inverse of the element on the wires `x` and hands it
    /// out for the wires `inv`, coefficient by coefficient.
    pub fn run_once(&self, witness: &PartitionWitness, out_buffer: &mut GeneratedValues)
        requires
            self.ready(witness),
            self.spec_input(witness) != fq6_zero(),
        ensures
            fq6_is_inverse(self.spec_input(witness), fq6_inv(self.spec_input(witness))),
            final(out_buffer).target_values@.len() == old(out_buffer).target_values@.len() + 6,
            forall|k: int|
                0 <= k < old(out_buffer).target_values@.len() ==> final(out_buffer).target_values@[k]
                    == old(out_buffer).target_values@[k],
            forall|j: int|
                old(out_buffer).target_values@.len() <= j < final(out_buffer).target_values@.len()
                    ==> {
                    let entry = #[trigger] final(out_buffer).target_values@[j];
                    let k = j - old(out_buffer).target_values@.len();
                    &&& entry.0 == self.inv.coeffs[k]
                    &&& entry.1.wf()
                    &&& entry.1@ == fq6_coefficients(
                        fq6_inv(self.spec_input(witness)),
                    )[k]
                },
    {
        let x = self.input(witness);
        let inv_x = x.inverse().unwrap();
        proof {
            assert(fq6_canonical(x@)) by {
                assert(forall|i: int| 0 <= i < 6 ==> (#[trigger] x.c@[i]).wf());
            }
            lemma_fq6_inverse_is_fq6_inv(x@, inv_x@);
        }
        let inv_x = MyFq6::from(inv_x);
        let ghost values = inv_x.values();
        assert(forall|k: int| 0 <= k < 6 ==> values[k] == (#[trigger] inv_x.coeffs[k])@);
        out_buffer.set_target(self.inv.coeffs[0], inv_x.coeffs[0]);
        out_buffer.set_target(self.inv.coeffs[1], inv_x.coeffs[1]);
        out_buffer.set_target(self.inv.coeffs[2], inv_x.coeffs[2]);
        out_buffer.set_target(self.inv.coeffs[3], inv_x.coeffs[3]);
        out_buffer.set_target(self.inv.coeffs[4], inv_x.coeffs[4]);
        out_buffer.set_target(self.inv.coeffs[5], inv_x.coeffs[5]);
    }
}

/// A polynomial of degree four over the base field on five wires.
struct QuarticTarget {
    d: [FqTarget; 5],
}

impl QuarticTarget {
    spec fn valid(&self, gates: Seq<Gate>) -> bool {
        &&& self.d[0].valid(gates)
        &&& self.d[1].valid(gates)
        &&& self.d[2].valid(gates)
        &&& self.d[3].valid(gates)
        &&& self.d[4].valid(gates)
    }

    spec fn value(&self, w: Seq<nat>) -> Quartic {
        Quartic {
            d0: self.d[0].value(w),
            d1: self.d[1].value(w),
            d2: self.d[2].value(w),
            d3: self.d[3].value(w),
            d4: self.d[4].value(w),
        }
    }

    /// The product of `a0 + a1 v + a2 v^2` and `b0 + b1 v + b2 v^2`.
    fn convolve(
        builder: &mut CircuitBuilder,
        a0: &FqTarget,
        a1: &FqTarget,
        a2: &FqTarget,
        b0: &FqTarget,
        b1: &FqTarget,
        b2: &FqTarget,
    ) -> (r: Self)
        requires
            old(builder).wf(),
            a0.valid(old(builder)@),
            a1.valid(old(builder)@),
            a2.valid(old(builder)@),
            b0.valid(old(builder)@),
            b1.valid(old(builder)@),
            b2.valid(old(builder)@),
        ensures
            appends_arithmetic(old(builder)@, final(builder)@),
            r.valid(final(builder)@),
            forall|w: Seq<nat>| #[trigger]
                satisfies(final(builder)@, w) ==> r.value(w) == convolution(
                    a0.value(w),
                    a1.value(w),
                    a2.value(w),
                    b0.value(w),
                    b1.value(w),
                    b2.value(w),
                ),
    {
        let d0 = a0.mul(builder, b0);
        let a0_b1 = a0.mul(builder, b1);
        let a0_b2 = a0.mul(builder, b2);
        let a1_b0 = a1.mul(builder, b0);
        let d1 = a0_b1.add(builder, &a1_b0);
        let a1_b1 = a1.mul(builder, b1);
        let sum = a0_b2.add(builder, &a1_b1);
        let a1_b2 = a1.mul(builder, b2);
        let a2_b0 = a2.mul(builder, b0);
        let d2 = sum.add(builder, &a2_b0);
        let a2_b1 = a2.mul(builder, b1);
        let d3 = a1_b2.add(builder, &a2_b1);
        let d4 = a2.mul(builder, b2);
        QuarticTarget { d: [d0, d1, d2, d3, d4] }
    }

    fn sub(&self, builder: &mut CircuitBuilder, rhs: &Self) -> (r: Self)
        requires
            old(builder).wf(),
            self.valid(old(builder)@),
            rhs.valid(old(builder)@),
        ensures
            appends_arithmetic(old(builder)@, final(builder)@),
            r.valid(final(builder)@),
            forall|w: Seq<nat>| #[trigger]
                satisfies(final(builder)@, w) ==> r.value(w) == quartic_sub(
                    self.value(w),
                    rhs.value(w),
                ),
    {
        let d0 = self.d[0].sub(builder, &rhs.d[0]);
        let d1 = self.d[1].sub(builder, &rhs.d[1]);
        let d2 = self.d[2].sub(builder, &rhs.d[2]);
        let d3 = self.d[3].sub(builder, &rhs.d[3]);
        let d4 = self.d[4].sub(builder, &rhs.d[4]);
        QuarticTarget { d: [d0, d1, d2, d3, d4] }
    }

    fn add(&self, builder: &mut CircuitBuilder, rhs: &Self) -> (r: Self)
        requires
            old(builder).wf(),
            self.valid(old(builder)@),
            rhs.valid(old(builder)@),
        ensures
            appends_arithmetic(old(builder)@, final(builder)@),
            r.valid(final(builder)@),
            forall|w: Seq<nat>| #[trigger]
                satisfies(final(builder)@, w) ==> r.value(w) == quartic_add(
                    self.value(w),
                    rhs.value(w),
                ),
    {
        let d0 = self.d[0].add(builder, &rhs.d[0]);
        let d1 = self.d[1].add(builder, &rhs.d[1]);
        let d2 = self.d[2].add(builder, &rhs.d[2]);
        let d3 = self.d[3].add(builder, &rhs.d[3]);
        let d4 = self.d[4].add(builder, &rhs.d[4]);
        QuarticTarget { d: [d0, d1, d2, d3, d4] }
    }

    /// The element `re + im u` reduced by `v^3 = 1 + u`.
    fn fold_back(builder: &mut CircuitBuilder, re: &Self, im: &Self) -> (r: Fq6Target)
        requires
            old(builder).wf(),
            re.valid(old(builder)@),
            im.valid(old(builder)@),
        ensures
            appends_arithmetic(old(builder)@, final(builder)@),
            r.valid(final(builder)@),
            forall|w: Seq<nat>| #[trigger]
                satisfies(final(builder)@, w) ==> r.value(w) == fold_back(
                    re.value(w),
                    im.value(w),
                ),
    {
        let const_one = FqTarget::constant(builder, Fq::one());

        let term1 = re.d[3].mul(builder, &const_one);
        let term2 = im.d[3].neg(builder);
        let sum = re.d[0].add(builder, &term1);
        let out0 = sum.add(builder, &term2);
        let term1 = re.d[4].mul(builder, &const_one);
        let term2 = im.d[4].neg(builder);
        let sum = re.d[1].add(builder, &term1);
        let out1 = sum.add(builder, &term2);

        let term2 = im.d[3].mul(builder, &const_one);
        let sum = im.d[0].add(builder, &re.d[3]);
        let out3 = sum.add(builder, &term2);
        let term2 = im.d[4].mul(builder, &const_one);
        let sum = im.d[1].add(builder, &re.d[4]);
        let out4 = sum.add(builder, &term2);

        Fq6Target { coeffs: [out0, out1, re.d[2], out3, out4, im.d[2]] }
    }
}

impl Fq6Target {
    pub open spec fn valid(&self, gates: Seq<Gate>) -> bool {
        &&& self.coeffs[0].valid(gates)
        &&& self.coeffs[1].valid(gates)
        &&& self.coeffs[2].valid(gates)
        &&& self.coeffs[3].valid(gates)
        &&& self.coeffs[4].valid(gates)
        &&& self.coeffs[5].valid(gates)
    }

    /// The element on the wires under the values `w`.
    pub open spec fn value(&self, w: Seq<nat>) -> Fq6Value {
        Fq6Value {
            c0: Fq2Value { c0: self.coeffs[0].value(w), c1: self.coeffs[3].value(w) },
            c1: Fq2Value { c0: self.coeffs[1].value(w), c1: self.coeffs[4].value(w) },
            c2: Fq2Value { c0: self.coeffs[2].value(w), c1: self.coeffs[5].value(w) },
        }
    }

    /// The numbers of the six wires.
    pub open spec fn spec_wires(&self) -> [usize; 6] {
        [
            self.coeffs[0].wire,
            self.coeffs[1].wire,
            self.coeffs[2].wire,
            self.coeffs[3].wire,
            self.coeffs[4].wire,
            self.coeffs[5].wire,
        ]
    }

    /// The numbers of the six wires.
    #[verifier::when_used_as_spec(spec_wires)]
    pub fn wires(&self) -> (r: [usize; 6])
        ensures
            r == self.spec_wires(),
    {
        let r = [
            self.coeffs[0].wire,
            self.coeffs[1].wire,
            self.coeffs[2].wire,
            self.coeffs[3].wire,
            self.coeffs[4].wire,
            self.coeffs[5].wire,
        ];
        assert(r =~= self.spec_wires());
        r
    }

    /// The element on the wires with the given numbers.
    pub fn from_wires(wires: [usize; 6]) -> (r: Self)
        ensures
            r.spec_wires() == wires,
            forall|k: int| 0 <= k < 6 ==> (#[trigger] r.coeffs[k]).wire == wires[k],
    {
        let r = Fq6Target {
            coeffs: [
                FqTarget { wire: wires[0] },
                FqTarget { wire: wires[1] },
                FqTarget { wire: wires[2] },
                FqTarget { wire: wires[3] },
                FqTarget { wire: wires[4] },
                FqTarget { wire: wires[5] },
            ],
        };
        assert(r.spec_wires() =~= wires);
        r
    }

    /// The coefficient of `1`, `v` or `v^2`, for `i` from zero to two.
    pub open spec fn spec_c(&self, i: int) -> Fq2Target {
        Fq2Target { coeffs: [self.coeffs[i], self.coeffs[i + 3]] }
    }

    /// The coefficient of `1`, `v` or `v^2`, for `i` from zero to two.
    pub fn c(&self, i: usize) -> (r: Fq2Target)
        requires
            i < 3,
        ensures
            r == self.spec_c(i as int),
    {
        Fq2Target { coeffs: [self.coeffs[i], self.coeffs[i + 3]] }
    }

    /// The element with the coefficients `c0`, `c1`, `c2` of `1`, `v`,
    /// `v^2`.
    pub fn from_fq2(c0: &Fq2Target, c1: &Fq2Target, c2: &Fq2Target) -> (r: Self)
        ensures
            forall|w: Seq<nat>| #[trigger]
                r.value(w) == (Fq6Value { c0: c0.value(w), c1: c1.value(w), c2: c2.value(w) }),
            forall|gates: Seq<Gate>|
                c0.valid(gates) && c1.valid(gates) && c2.valid(gates) ==> #[trigger] r.valid(
                    gates,
                ),
    {
        Fq6Target {
            coeffs: [
                c0.coeffs[0],
                c1.coeffs[0],
                c2.coeffs[0],
                c0.coeffs[1],
                c1.coeffs[1],
                c2.coeffs[1],
            ],
        }
    }

    /// Six fresh wires under no constraint.
    pub fn empty(builder: &mut CircuitBuilder) -> (r: Self)
        requires
            old(builder).wf(),
        ensures
            appends(old(builder)@, final(builder)@),
            final(builder)@.len() == old(builder)@.len() + 6,
            forall|k: int|
                0 <= k < 6 ==> (#[trigger] r.coeffs[k]).wire == old(builder)@.len() + k
                    && final(builder)@[old(builder)@.len() + k] == Gate::Virtual,
            r.valid(final(builder)@),
    {
        let c0 = FqTarget::empty(builder);
        let c1 = FqTarget::empty(builder);
        let c2 = FqTarget::empty(builder);
        let c3 = FqTarget::empty(builder);
        let c4 = FqTarget::empty(builder);
        let c5 = FqTarget::empty(builder);
        Fq6Target { coeffs: [c0, c1, c2, c3, c4, c5] }
    }

    /// The element on the six given wires.
    pub fn new(coeffs: Vec<FqTarget>) -> (r: Self)
        requires
            coeffs.len() == 6,
        ensures
            r.coeffs@ == coeffs@,
    {
        let r = Fq6Target {
            coeffs: [coeffs[0], coeffs[1], coeffs[2], coeffs[3], coeffs[4], coeffs[5]],
        };
        assert(r.coeffs@ =~= coeffs@);
        r
    }

    /// Constrains the two elements to be the same.
    pub fn connect(builder: &mut CircuitBuilder, lhs: &Self, rhs: &Self)
        requires
            old(builder).wf(),
            lhs.valid(old(builder)@),
            rhs.valid(old(builder)@),
        ensures
            appends(old(builder)@, final(builder)@),
            final(builder)@.len() == old(builder)@.len() + 6,
            forall|k: int|
                0 <= k < 6 ==> #[trigger] final(builder)@[old(builder)@.len() + k]
                    == Gate::Connect(lhs.coeffs[k].wire, rhs.coeffs[k].wire),
            forall|w: Seq<nat>| #[trigger]
                satisfies(final(builder)@, w) ==> lhs.value(w) == rhs.value(w),
    {
        FqTarget::connect(builder, &lhs.coeffs[0], &rhs.coeffs[0]);
        FqTarget::connect(builder, &lhs.coeffs[1], &rhs.coeffs[1]);
        FqTarget::connect(builder, &lhs.coeffs[2], &rhs.coeffs[2]);
        FqTarget::connect(builder, &lhs.coeffs[3], &rhs.coeffs[3]);
        FqTarget::connect(builder, &lhs.coeffs[4], &rhs.coeffs[4]);
        FqTarget::connect(builder, &lhs.coeffs[5], &rhs.coeffs[5]);
    }

    /// The element `a` where `flag` is set, and else `b`, coefficient by
    /// coefficient and without a branch in the circuit.
    pub fn select(builder: &mut CircuitBuilder, a: &Self, b: &Self, flag: &BoolTarget) -> (r: Self)
        requires
            old(builder).wf(),
            a.valid(old(builder)@),
            b.valid(old(builder)@),
            flag.valid(old(builder)@),
        ensures
            appends_arithmetic(old(builder)@, final(builder)@),
            r.valid(final(builder)@),
            forall|w: Seq<nat>| #[trigger]
                satisfies(final(builder)@, w) ==> r.value(w) == if flag.value(w) {
                    a.value(w)
                } else {
                    b.value(w)
                },
    {
        let c0 = FqTarget::select(builder, &a.coeffs[0], &b.coeffs[0], flag);
        let c1 = FqTarget::select(builder, &a.coeffs[1], &b.coeffs[1], flag);
        let c2 = FqTarget::select(builder, &a.coeffs[2], &b.coeffs[2], flag);
        let c3 = FqTarget::select(builder, &a.coeffs[3], &b.coeffs[3], flag);
        let c4 = FqTarget::select(builder, &a.coeffs[4], &b.coeffs[4], flag);
        let c5 = FqTarget::select(builder, &a.coeffs[5], &b.coeffs[5], flag);
        Fq6Target { coeffs: [c0, c1, c2, c3, c4, c5] }
    }

    /// Wires that carry the element `c`.
    pub fn constant(builder: &mut CircuitBuilder, c: Fq6) -> (r: Self)
        requires
            old(builder).wf(),
            c.wf(),
        ensures
            appends_arithmetic(old(builder)@, final(builder)@),
            r.valid(final(builder)@),
            forall|w: Seq<nat>| #[trigger] satisfies(final(builder)@, w) ==> r.value(w) == c@,
    {
        let c = MyFq6::from(c);
        let ghost v = c.values();
        assert(v[0] == c.coeffs[0]@ && v[1] == c.coeffs[1]@ && v[2] == c.coeffs[2]@);
        assert(v[3] == c.coeffs[3]@ && v[4] == c.coeffs[4]@ && v[5] == c.coeffs[5]@);
        let c0 = FqTarget::constant(builder, c.coeffs[0]);
        let c1 = FqTarget::constant(builder, c.coeffs[1]);
        let c2 = FqTarget::constant(builder, c.coeffs[2]);
        let c3 = FqTarget::constant(builder, c.coeffs[3]);
        let c4 = FqTarget::constant(builder, c.coeffs[4]);
        let c5 = FqTarget::constant(builder, c.coeffs[5]);
        Fq6Target { coeffs: [c0, c1, c2, c3, c4, c5] }
    }

    /// Wires for the inverse of the element.
    ///
    /// The inverse is no polynomial in the coefficients, so no gate computes
    /// it. Six free wires stand for it; a generator will compute it when the
    /// witness is filled; and the circuit constrains the product of the
    /// element with what is on those wires to be one. There is no witness
    /// where the element is zero.
    pub fn inv(&self, builder: &mut CircuitBuilder) -> (inv: Self)
        requires
            old(builder).wf(),
            self.valid(old(builder)@),
        ensures
            appends(old(builder)@, final(builder)@),
            inv.valid(final(builder)@),
            forall|w: Seq<nat>| #[trigger]
                satisfies(final(builder)@, w) ==> fq6_mul(self.value(w), inv.value(w))
                    == fq6_one(),
            forall|k: int|
                0 <= k < 6 ==> (#[trigger] inv.coeffs[k]).wire == old(builder)@.len() + k
                    && final(builder)@[old(builder)@.len() + k] == Gate::Virtual,
            final(builder)@[old(builder)@.len() as int + 6] == Gate::Fq6Inverse(
                self.spec_wires(),
                inv.spec_wires(),
            ),
            forall|i: int|
                old(builder)@.len() + 7 <= i < final(builder)@.len() ==> (
                #[trigger] final(builder)@[i]).is_arithmetic() || final(builder)@[i] is Connect,
    {
        let inv = Self::empty(builder);
        let ghost allocated = builder@;
        builder.add_simple_generator(Fq6InverseGenerator { x: *self, inv });
        let ghost registered = builder@;
        let one = Self::constant(builder, Fq6::one());
        let x_mul_inv = self.mul(builder, &inv);
        let ghost multiplied = builder@;
        Self::connect(builder, &x_mul_inv, &one);
        proof {
            let n = old(builder)@.len() as int;
            assert forall|k: int| 0 <= k < 6 implies (#[trigger] inv.coeffs[k]).wire == n + k
                && builder@[n + k] == Gate::Virtual by {
                assert(builder@[n + k] == multiplied[n + k]);
                assert(multiplied[n + k] == registered[n + k]);
            }
            assert(builder@[n + 6] == multiplied[n + 6]);
            assert(multiplied[n + 6] == registered[n + 6]);
            assert forall|i: int| n + 7 <= i < builder@.len() implies (
            #[trigger] builder@[i]).is_arithmetic() || builder@[i] is Connect by {
                if i < multiplied.len() {
                    assert(builder@[i] == multiplied[i]);
                } else {
                    let k = i - multiplied.len();
                    assert(builder@[multiplied.len() + k] == Gate::Connect(
                        x_mul_inv.coeffs[k].wire,
                        one.coeffs[k].wire,
                    ));
                }
            }
        }
        inv
    }

    pub fn add(&self, builder: &mut CircuitBuilder, rhs: &Self) -> (r: Self)
        requires
            old(builder).wf(),
            self.valid(old(builder)@),
            rhs.valid(old(builder)@),
        ensures
            appends_arithmetic(old(builder)@, final(builder)@),
            r.valid(final(builder)@),
            forall|w: Seq<nat>| #[trigger]
                satisfies(final(builder)@, w) ==> r.value(w) == fq6_add(
                    self.value(w),
                    rhs.value(w),
                ),
    {
        let c0 = self.coeffs[0].add(builder, &rhs.coeffs[0]);
        let c1 = self.coeffs[1].add(builder, &rhs.coeffs[1]);
        let c2 = self.coeffs[2].add(builder, &rhs.coeffs[2]);
        let c3 = self.coeffs[3].add(builder, &rhs.coeffs[3]);
        let c4 = self.coeffs[4].add(builder, &rhs.coeffs[4]);
        let c5 = self.coeffs[5].add(builder, &rhs.coeffs[5]);
        Fq6Target { coeffs: [c0, c1, c2, c3, c4, c5] }
    }

    pub fn neg(&self, builder: &mut CircuitBuilder) -> (r: Self)
        requires
            old(builder).wf(),
            self.valid(old(builder)@),
        ensures
            appends_arithmetic(old(builder)@, final(builder)@),
            r.valid(final(builder)@),
            forall|w: Seq<nat>| #[trigger]
                satisfies(final(builder)@, w) ==> r.value(w) == fq6_neg(self.value(w)),
    {
        let c0 = self.coeffs[0].neg(builder);
        let c1 = self.coeffs[1].neg(builder);
        let c2 = self.coeffs[2].neg(builder);
        let c3 = self.coeffs[3].neg(builder);
        let c4 = self.coeffs[4].neg(builder);
        let c5 = self.coeffs[5].neg(builder);
        Fq6Target { coeffs: [c0, c1, c2, c3, c4, c5] }
    }

    pub fn sub(&self, builder: &mut CircuitBuilder, rhs: &Self) -> (r: Self)
        requires
            old(builder).wf(),
            self.valid(old(builder)@),
            rhs.valid(old(builder)@),
        ensures
            appends_arithmetic(old(builder)@, final(builder)@),
            r.valid(final(builder)@),
            forall|w: Seq<nat>| #[trigger]
                satisfies(final(builder)@, w) ==> r.value(w) == fq6_sub(
                    self.value(w),
                    rhs.value(w),
                ),
    {
        let c0 = self.coeffs[0].sub(builder, &rhs.coeffs[0]);
        let c1 = self.coeffs[1].sub(builder, &rhs.coeffs[1]);
        let c2 = self.coeffs[2].sub(builder, &rhs.coeffs[2]);
        let c3 = self.coeffs[3].sub(builder, &rhs.coeffs[3]);
        let c4 = self.coeffs[4].sub(builder, &rhs.coeffs[4]);
        let c5 = self.coeffs[5].sub(builder, &rhs.coeffs[5]);
        Fq6Target { coeffs: [c0, c1, c2, c3, c4, c5] }
    }

    /// The product in the sextic extension.
    ///
    /// With `a = a0 + a1 u` and `b = b0 + b1 u`, where `a0`, `a1`, `b0`, `b1`
    /// are polynomials in `v` over the base field, the four products
    /// `a0 b0`, `a0 b1`, `a1 b0`, `a1 b1` give `a0 b0 - a1 b1` and
    /// `a0 b1 + a1 b0`, of degree four. As `v^3 = 1 + u`, the coefficients
    /// of degree three and four fold back onto those of degree zero and one;
    /// the coefficient of degree two receives nothing.
    pub fn mul(&self, builder: &mut CircuitBuilder, rhs: &Self) -> (r: Self)
        requires
            old(builder).wf(),
            self.valid(old(builder)@),
            rhs.valid(old(builder)@),
        ensures
            appends_arithmetic(old(builder)@, final(builder)@),
            r.valid(final(builder)@),
            forall|w: Seq<nat>| #[trigger]
                satisfies(final(builder)@, w) ==> r.value(w) == fq6_mul(
                    self.value(w),
                    rhs.value(w),
                ),
    {
        let a = &self.coeffs;
        let b = &rhs.coeffs;
        let a0b0 = QuarticTarget::convolve(builder, &a[0], &a[1], &a[2], &b[0], &b[1], &b[2]);
        let a0b1 = QuarticTarget::convolve(builder, &a[0], &a[1], &a[2], &b[3], &b[4], &b[5]);
        let a1b0 = QuarticTarget::convolve(builder, &a[3], &a[4], &a[5], &b[0], &b[1], &b[2]);
        let a1b1 = QuarticTarget::convolve(builder, &a[3], &a[4], &a[5], &b[3], &b[4], &b[5]);
        let a0b0_minus_a1b1 = a0b0.sub(builder, &a1b1);
        let a0b1_plus_a1b0 = a0b1.add(builder, &a1b0);
        let r = QuarticTarget::fold_back(builder, &a0b0_minus_a1b1, &a0b1_plus_a1b0);
        assert forall|w: Seq<nat>| #[trigger] satisfies(builder@, w) implies r.value(w) == fq6_mul(
            self.value(w),
            rhs.value(w),
        ) by {
            lemma_schoolbook_product(self.value(w), rhs.value(w));
        }
        r
    }

    /// The product with `c0 + c1 v`, an element whose coefficient of `v^2`
    /// is zero.
    pub fn mul_by_01(self, builder: &mut CircuitBuilder, c0: &Fq2Target, c1: &Fq2Target) -> (r:
        Self)
        requires
            old(builder).wf(),
            self.valid(old(builder)@),
            c0.valid(old(builder)@),
            c1.valid(old(builder)@),
        ensures
            appends_arithmetic(old(builder)@, final(builder)@),
            r.valid(final(builder)@),
            forall|w: Seq<nat>| #[trigger]
                satisfies(final(builder)@, w) ==> r.value(w) == fq6_mul(
                    self.value(w),
                    fq6_embed_01(c0.value(w), c1.value(w)),
                ),
    {
        let fq6_c0 = self.c(0);
        let fq6_c1 = self.c(1);
        let fq6_c2 = self.c(2);

        let a_a = fq6_c0.mul(builder, c0);
        let b_b = fq6_c1.mul(builder, c1);

        let t1 = fq6_c2.mul(builder, c1);
        let t1 = t1.mul_by_nonresidue(builder);
        let t1 = t1.add(builder, &a_a);

        let c0_add_c1 = c0.add(builder, c1);
        let fq6_c0_add_fq6_c1 = fq6_c0.add(builder, &fq6_c1);
        let t2 = c0_add_c1.mul(builder, &fq6_c0_add_fq6_c1);
        let t2 = t2.sub(builder, &a_a);
        let t2 = t2.sub(builder, &b_b);

        let t3 = fq6_c2.mul(builder, c0);
        let t3 = t3.add(builder, &b_b);

        let r = Self::from_fq2(&t1, &t2, &t3);
        assert forall|w: Seq<nat>| #[trigger] satisfies(builder@, w) implies r.value(w) == fq6_mul(
            self.value(w),
            fq6_embed_01(c0.value(w), c1.value(w)),
        ) by {
            assert(satisfies(old(builder)@, w));
            lemma_sparse_product_01(self.value(w), c0.value(w), c1.value(w));
        }
        r
    }

    /// The product with `c1 v`, an element with only the middle
    /// coefficient.
    pub fn mul_by_1(self, builder: &mut CircuitBuilder, c1: &Fq2Target) -> (r: Self)
        requires
            old(builder).wf(),
            self.valid(old(builder)@),
            c1.valid(old(builder)@),
        ensures
            appends_arithmetic(old(builder)@, final(builder)@),
            r.valid(final(builder)@),
            forall|w: Seq<nat>| #[trigger]
                satisfies(final(builder)@, w) ==> r.value(w) == fq6_mul(
                    self.value(w),
                    fq6_embed_1(c1.value(w)),
                ),
    {
        let fq6_c0 = self.c(0);
        let fq6_c1 = self.c(1);
        let fq6_c2 = self.c(2);

        let b_b = fq6_c1.mul(builder, c1);

        let tmp = fq6_c1.add(builder, &fq6_c2);
        let t1 = c1.mul(builder, &tmp);
        let t1 = t1.sub(builder, &b_b);
        let t1 = t1.mul_by_nonresidue(builder);

        let tmp = fq6_c0.add(builder, &fq6_c1);
        let t2 = c1.mul(builder, &tmp);
        let t2 = t2.sub(builder, &b_b);

        let r = Self::from_fq2(&t1, &t2, &b_b);
        assert forall|w: Seq<nat>| #[trigger] satisfies(builder@, w) implies r.value(w) == fq6_mul(
            self.value(w),
            fq6_embed_1(c1.value(w)),
        ) by {
            assert(satisfies(old(builder)@, w));
            lemma_sparse_product_1(self.value(w), c1.value(w));
        }
        r
    }

    /// The product with `v`.
    pub fn mul_by_nonresidue(&self, builder: &mut CircuitBuilder) -> (r: Self)
        requires
            old(builder).wf(),
            self.valid(old(builder)@),
        ensures
            appends_arithmetic(old(builder)@, final(builder)@),
            r.valid(final(builder)@),
            forall|w: Seq<nat>| #[trigger]
                satisfies(final(builder)@, w) ==> r.value(w) == fq6_mul_by_nonresidue(
                    self.value(w),
                ),
    {
        // Given a + b v + c v^2, this produces a v + b v^2 + c v^3,
        // and because v^3 = u + 1, that is c (u + 1) + a v + b v^2.
        let fq6_c0 = self.c(0);
        let fq6_c1 = self.c(1);
        let fq6_c2 = self.c(2);

        let c0 = fq6_c2.mul_by_nonresidue(builder);
        let c1 = fq6_c0;
        let c2 = fq6_c1;

        Self::from_fq2(&c0, &c1, &c2)
    }

    /// The product with `x` where `flag` is set, and else the element
    /// itself. The product is built in either case, so that the shape of
    /// the circuit does not depend on the flag.
    pub fn conditional_mul(&self, builder: &mut CircuitBuilder, x: &Self, flag: &BoolTarget) -> (r:
        Self)
        requires
            old(builder).wf(),
            self.valid(old(builder)@),
            x.valid(old(builder)@),
            flag.valid(old(builder)@),
        ensures
            appends_arithmetic(old(builder)@, final(builder)@),
            r.valid(final(builder)@),
            forall|w: Seq<nat>| #[trigger]
                satisfies(final(builder)@, w) ==> r.value(w) == if flag.value(w) {
                    fq6_mul(self.value(w), x.value(w))
                } else {
                    self.value(w)
                },
    {
        let muled = self.mul(builder, x);
        Self::select(builder, &muled, self, flag)
    }
}

} // verus!
