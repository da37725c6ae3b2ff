//! Field elements as plain values, and the arithmetic on them that the
//! arkworks field types carry out.
//!
//! An element of an extension is the fixed-length array of its base-field
//! coefficients in tower order: the coefficient of `1` before that of `u`,
//! within each coefficient of `1`, `v`, `v^2`, within each of `1`, `w`.

use crate::math::field::{fq_add, fq_is_inverse, fq_mul, fq_neg, fq_sub, modulus};
use crate::math::tower::{
    fq12_conjugate, fq12_mul, fq12_sparse_014, fq12_square, fq2_add, fq2_double, fq2_mul,
    fq2_neg, fq2_scale, fq2_square, fq2_sub, fq6_is_inverse, fq6_zero, Fq12Value, Fq2Value,
    Fq6Value,
};
use ark_bls12_381::Fq as ArkFq;
use ark_bls12_381::Fq12 as ArkFq12;
use ark_bls12_381::Fq2 as ArkFq2;
use ark_bls12_381::Fq6 as ArkFq6;
use ark_ec::short_weierstrass::SWCurveConfig;
use ark_ff::{AdditiveGroup, BigInt, Field, PrimeField, UniformRand};
use vstd::prelude::*;

verus! {

/// The integer that six 64-bit limbs spell, least significant limb first.
pub open spec fn limbs_value(limbs: [u64; 6]) -> nat {
    (limbs[0] as nat) + (limbs[1] as nat) * 0x1_0000_0000_0000_0000
        + (limbs[2] as nat) * 0x1_0000_0000_0000_0000_0000_0000_0000_0000
        + (limbs[3] as nat) * 0x1_0000_0000_0000_0000_0000_0000_0000_0000_0000_0000_0000_0000
        + (limbs[4] as nat)
        * 0x1_0000_0000_0000_0000_0000_0000_0000_0000_0000_0000_0000_0000_0000_0000_0000_0000
        + (limbs[5] as nat)
        * 0x1_0000_0000_0000_0000_0000_0000_0000_0000_0000_0000_0000_0000_0000_0000_0000_0000_0000_0000_0000_0000
}

/// Limbs that spell the same integer are the same.
pub proof fn lemma_limbs_injective(a: [u64; 6], b: [u64; 6])
    ensures
        limbs_value(a) == limbs_value(b) <==> (forall|i: int| 0 <= i < 6 ==> a[i] == b[i]),
{
    if limbs_value(a) == limbs_value(b) {
        let x4 = a[4] + 0x1_0000_0000_0000_0000 * a[5];
        let y4 = b[4] + 0x1_0000_0000_0000_0000 * b[5];
        let x3 = a[3] + 0x1_0000_0000_0000_0000 * x4;
        let y3 = b[3] + 0x1_0000_0000_0000_0000 * y4;
        let x2 = a[2] + 0x1_0000_0000_0000_0000 * x3;
        let y2 = b[2] + 0x1_0000_0000_0000_0000 * y3;
        let x1 = a[1] + 0x1_0000_0000_0000_0000 * x2;
        let y1 = b[1] + 0x1_0000_0000_0000_0000 * y2;
        assert(limbs_value(a) == a[0] + 0x1_0000_0000_0000_0000 * x1);
        assert(limbs_value(b) == b[0] + 0x1_0000_0000_0000_0000 * y1);
        lemma_low_limb(a[0], x1, b[0], y1);
        lemma_low_limb(a[1], x2, b[1], y2);
        lemma_low_limb(a[2], x3, b[2], y3);
        lemma_low_limb(a[3], x4, b[3], y4);
        lemma_low_limb(a[4], a[5] as int, b[4], b[5] as int);
    }
}

/// Two integers with the same low limb and the same rest are the same, and
/// the other way round.
proof fn lemma_low_limb(a: u64, x: int, b: u64, y: int)
    requires
        a + 0x1_0000_0000_0000_0000 * x == b + 0x1_0000_0000_0000_0000 * y,
    ensures
        a == b,
        x == y,
{
}

/// An element of the base field, held as the limbs of its representative.
#[derive(Clone, Copy, Debug, PartialEq, Eq)]
pub struct Fq {
    pub limbs: [u64; 6],
}

/// An element of the quadratic extension.
#[derive(Clone, Copy, Debug, PartialEq, Eq)]
pub struct Fq2 {
    pub c: [Fq; 2],
}

/// An element of the sextic extension.
#[derive(Clone, Copy, Debug, PartialEq, Eq)]
pub struct Fq6 {
    pub c: [Fq; 6],
}

/// An element of the duodecimal extension.
#[derive(Clone, Copy, Debug, PartialEq, Eq)]
pub struct Fq12 {
    pub c: [Fq; 12],
}

impl View for Fq {
    type V = nat;

    open spec fn view(&self) -> nat {
        limbs_value(self.limbs)
    }
}

/// The quadratic element spelled by entries `k` and `k + 1` of `c`.
pub open spec fn fq2_at(c: Seq<Fq>, k: int) -> Fq2Value {
    Fq2Value { c0: c[k]@, c1: c[k + 1]@ }
}

/// The sextic element spelled by the six entries of `c` from `k` on.
pub open spec fn fq6_at(c: Seq<Fq>, k: int) -> Fq6Value {
    Fq6Value { c0: fq2_at(c, k), c1: fq2_at(c, k + 2), c2: fq2_at(c, k + 4) }
}

/// The first `n` entries of `c` are canonical.
pub open spec fn all_wf(c: Seq<Fq>, n: int) -> bool {
    forall|i: int| 0 <= i < n ==> (#[trigger] c[i]).wf()
}

impl View for Fq2 {
    type V = Fq2Value;

    open spec fn view(&self) -> Fq2Value {
        fq2_at(self.c@, 0)
    }
}

impl View for Fq6 {
    type V = Fq6Value;

    open spec fn view(&self) -> Fq6Value {
        fq6_at(self.c@, 0)
    }
}

impl View for Fq12 {
    type V = Fq12Value;

    open spec fn view(&self) -> Fq12Value {
        Fq12Value { c0: fq6_at(self.c@, 0), c1: fq6_at(self.c@, 6) }
    }
}

impl Fq {
    /// The limbs spell the canonical representative.
    pub open spec fn wf(&self) -> bool {
        self@ < modulus()
    }

    pub fn zero() -> (r: Fq)
        ensures
            r.wf(),
            r@ == 0,
    {
        Fq { limbs: [0, 0, 0, 0, 0, 0] }
    }

    pub fn one() -> (r: Fq)
        ensures
            r.wf(),
            r@ == 1,
    {
        Fq { limbs: [1, 0, 0, 0, 0, 0] }
    }

    /// The element with the given limbs, if they spell a canonical value.
    pub fn from_limbs(limbs: [u64; 6]) -> (r: Option<Fq>)
        ensures
            r is Some <==> limbs_value(limbs) < modulus(),
            r is Some ==> r->0.limbs == limbs && r->0.wf(),
    {
        if limbs_are_canonical(&limbs) {
            Some(Fq { limbs })
        } else {
            None
        }
    }

    /// Whether two elements are the same residue.
    pub fn equals(&self, other: &Fq) -> (r: bool)
        ensures
            r == (self@ == other@),
    {
        proof {
            lemma_limbs_injective(self.limbs, other.limbs);
        }
        self.limbs[0] == other.limbs[0] && self.limbs[1] == other.limbs[1] && self.limbs[2]
            == other.limbs[2] && self.limbs[3] == other.limbs[3] && self.limbs[4] == other.limbs[4]
            && self.limbs[5] == other.limbs[5]
    }

    pub fn is_zero(&self) -> (r: bool)
        ensures
            r == (self@ == 0),
    {
        self.equals(&Fq::zero())
    }

    /// `Add::add` of `ark_bls12_381::Fq`: the sum of the residues.
    #[verifier::external_body]
    pub(crate) fn add(&self, rhs: &Fq) -> (r: Fq)
        requires
            self.wf(),
            rhs.wf(),
        ensures
            r.wf(),
            r@ == fq_add(self@, rhs@),
    {
        let x = ArkFq::from(BigInt(self.limbs)) + ArkFq::from(BigInt(rhs.limbs));
        Fq { limbs: x.into_bigint().0 }
    }

    /// `Sub::sub` of `ark_bls12_381::Fq`: the difference of the residues.
    #[verifier::external_body]
    pub(crate) fn sub(&self, rhs: &Fq) -> (r: Fq)
        requires
            self.wf(),
            rhs.wf(),
        ensures
            r.wf(),
            r@ == fq_sub(self@, rhs@),
    {
        let x = ArkFq::from(BigInt(self.limbs)) - ArkFq::from(BigInt(rhs.limbs));
        Fq { limbs: x.into_bigint().0 }
    }

    /// `Mul::mul` of `ark_bls12_381::Fq`: the product of the residues.
    #[verifier::external_body]
    pub(crate) fn mul(&self, rhs: &Fq) -> (r: Fq)
        requires
            self.wf(),
            rhs.wf(),
        ensures
            r.wf(),
            r@ == fq_mul(self@, rhs@),
    {
        let x = ArkFq::from(BigInt(self.limbs)) * ArkFq::from(BigInt(rhs.limbs));
        Fq { limbs: x.into_bigint().0 }
    }

    /// `Neg::neg` of `ark_bls12_381::Fq`: the additive inverse.
    #[verifier::external_body]
    pub(crate) fn neg(&self) -> (r: Fq)
        requires
            self.wf(),
        ensures
            r.wf(),
            r@ == fq_neg(self@),
    {
        Fq { limbs: (-ArkFq::from(BigInt(self.limbs))).into_bigint().0 }
    }

    /// `AdditiveGroup::double` of `ark_ff` on `ark_bls12_381::Fq`: the
    /// element added to itself.
    #[verifier::external_body]
    pub(crate) fn double(&self) -> (r: Fq)
        requires
            self.wf(),
        ensures
            r.wf(),
            r@ == fq_add(self@, self@),
    {
        Fq { limbs: ArkFq::from(BigInt(self.limbs)).double().into_bigint().0 }
    }

    /// `Field::inverse` of `ark_ff` on `ark_bls12_381::Fq`: nothing for
    /// zero, and for any other element the one whose product with it is one.
    #[verifier::external_body]
    pub(crate) fn inverse(&self) -> (r: Option<Fq>)
        requires
            self.wf(),
        ensures
            r is None <==> self@ == 0,
            r is Some ==> r->0.wf() && fq_is_inverse(self@, r->0@),
    {
        ArkFq::from(BigInt(self.limbs)).inverse().map(|x| Fq { limbs: x.into_bigint().0 })
    }
}

/// `PrimeField::from_bigint` of `ark_ff` on `ark_bls12_381::Fq`, which
/// accepts exactly the integers below the modulus.
#[verifier::external_body]
fn limbs_are_canonical(limbs: &[u64; 6]) -> (r: bool)
    ensures
        r == (limbs_value(*limbs) < modulus()),
{
    ArkFq::from_bigint(BigInt(*limbs)).is_some()
}

impl Fq2 {
    pub open spec fn wf(&self) -> bool {
        all_wf(self.c@, 2)
    }

    pub fn new(c0: Fq, c1: Fq) -> (r: Fq2)
        requires
            c0.wf(),
            c1.wf(),
        ensures
            r.wf(),
            r@ == (Fq2Value { c0: c0@, c1: c1@ }),
    {
        Fq2 { c: [c0, c1] }
    }

    pub fn zero() -> (r: Fq2)
        ensures
            r.wf(),
            r@ == crate::math::tower::fq2_zero(),
    {
        Fq2 { c: [Fq::zero(), Fq::zero()] }
    }

    pub fn one() -> (r: Fq2)
        ensures
            r.wf(),
            r@ == crate::math::tower::fq2_one(),
    {
        Fq2 { c: [Fq::one(), Fq::zero()] }
    }

    /// `Add::add` of `ark_bls12_381::Fq2`: the coefficient-wise sum.
    #[verifier::external_body]
    pub(crate) fn add(&self, rhs: &Fq2) -> (r: Fq2)
        requires
            self.wf(),
            rhs.wf(),
        ensures
            r.wf(),
            r@ == fq2_add(self@, rhs@),
    {
        let e = |x: &Fq| ArkFq::from(BigInt(x.limbs));
        let x = ArkFq2::from_base_prime_field_elems(self.c.iter().map(e)).unwrap();
        let y = ArkFq2::from_base_prime_field_elems(rhs.c.iter().map(e)).unwrap();
        let d = |s: ArkFq| Fq { limbs: s.into_bigint().0 };
        let v: Vec<Fq> = (x + y).to_base_prime_field_elements().map(d).collect();
        Fq2 { c: v.try_into().unwrap() }
    }

    /// `Sub::sub` of `ark_bls12_381::Fq2`: the coefficient-wise difference.
    #[verifier::external_body]
    pub(crate) fn sub(&self, rhs: &Fq2) -> (r: Fq2)
        requires
            self.wf(),
            rhs.wf(),
        ensures
            r.wf(),
            r@ == fq2_sub(self@, rhs@),
    {
        let e = |x: &Fq| ArkFq::from(BigInt(x.limbs));
        let x = ArkFq2::from_base_prime_field_elems(self.c.iter().map(e)).unwrap();
        let y = ArkFq2::from_base_prime_field_elems(rhs.c.iter().map(e)).unwrap();
        let d = |s: ArkFq| Fq { limbs: s.into_bigint().0 };
        let v: Vec<Fq> = (x - y).to_base_prime_field_elements().map(d).collect();
        Fq2 { c: v.try_into().unwrap() }
    }

    /// `Mul::mul` of `ark_bls12_381::Fq2`: the product in the quadratic
    /// extension by `u^2 = -1`.
    #[verifier::external_body]
    pub(crate) fn mul(&self, rhs: &Fq2) -> (r: Fq2)
        requires
            self.wf(),
            rhs.wf(),
        ensures
            r.wf(),
            r@ == fq2_mul(self@, rhs@),
    {
        let e = |x: &Fq| ArkFq::from(BigInt(x.limbs));
        let x = ArkFq2::from_base_prime_field_elems(self.c.iter().map(e)).unwrap();
        let y = ArkFq2::from_base_prime_field_elems(rhs.c.iter().map(e)).unwrap();
        let d = |s: ArkFq| Fq { limbs: s.into_bigint().0 };
        let v: Vec<Fq> = (x * y).to_base_prime_field_elements().map(d).collect();
        Fq2 { c: v.try_into().unwrap() }
    }

    /// `Neg::neg` of `ark_bls12_381::Fq2`: the coefficient-wise negation.
    #[verifier::external_body]
    pub(crate) fn neg(&self) -> (r: Fq2)
        requires
            self.wf(),
        ensures
            r.wf(),
            r@ == fq2_neg(self@),
    {
        let e = |x: &Fq| ArkFq::from(BigInt(x.limbs));
        let x = ArkFq2::from_base_prime_field_elems(self.c.iter().map(e)).unwrap();
        let d = |s: ArkFq| Fq { limbs: s.into_bigint().0 };
        let v: Vec<Fq> = (-x).to_base_prime_field_elements().map(d).collect();
        Fq2 { c: v.try_into().unwrap() }
    }

    /// `AdditiveGroup::double` of `ark_ff` on `ark_bls12_381::Fq2`: the
    /// element added to itself.
    #[verifier::external_body]
    pub(crate) fn double(&self) -> (r: Fq2)
        requires
            self.wf(),
        ensures
            r.wf(),
            r@ == fq2_double(self@),
    {
        let e = |x: &Fq| ArkFq::from(BigInt(x.limbs));
        let x = ArkFq2::from_base_prime_field_elems(self.c.iter().map(e)).unwrap();
        let d = |s: ArkFq| Fq { limbs: s.into_bigint().0 };
        let v: Vec<Fq> = x.double().to_base_prime_field_elements().map(d).collect();
        Fq2 { c: v.try_into().unwrap() }
    }

    /// `Field::square` of `ark_ff` on `ark_bls12_381::Fq2`: the product of
    /// the element with itself.
    #[verifier::external_body]
    pub(crate) fn square(&self) -> (r: Fq2)
        requires
            self.wf(),
        ensures
            r.wf(),
            r@ == fq2_square(self@),
    {
        let e = |x: &Fq| ArkFq::from(BigInt(x.limbs));
        let x = ArkFq2::from_base_prime_field_elems(self.c.iter().map(e)).unwrap();
        let d = |s: ArkFq| Fq { limbs: s.into_bigint().0 };
        let v: Vec<Fq> = x.square().to_base_prime_field_elements().map(d).collect();
        Fq2 { c: v.try_into().unwrap() }
    }

    /// `Fp2::mul_assign_by_fp` of `ark_ff` on `ark_bls12_381::Fq2`: both
    /// coefficients multiplied by the base-field element.
    #[verifier::external_body]
    pub(crate) fn mul_by_fp(&self, k: &Fq) -> (r: Fq2)
        requires
            self.wf(),
            k.wf(),
        ensures
            r.wf(),
            r@ == fq2_scale(self@, k@),
    {
        let e = |x: &Fq| ArkFq::from(BigInt(x.limbs));
        let mut x = ArkFq2::from_base_prime_field_elems(self.c.iter().map(e)).unwrap();
        x.mul_assign_by_fp(&e(k));
        let d = |s: ArkFq| Fq { limbs: s.into_bigint().0 };
        let v: Vec<Fq> = x.to_base_prime_field_elements().map(d).collect();
        Fq2 { c: v.try_into().unwrap() }
    }

    /// `UniformRand::rand` of `ark_ff` on `ark_bls12_381::Fq2`, drawn from
    /// `rand::thread_rng`: some element of the field.
    #[verifier::external_body]
    pub(crate) fn random() -> (r: Fq2)
        ensures
            r.wf(),
    {
        let x = ArkFq2::rand(&mut rand::thread_rng());
        let d = |s: ArkFq| Fq { limbs: s.into_bigint().0 };
        let v: Vec<Fq> = x.to_base_prime_field_elements().map(d).collect();
        Fq2 { c: v.try_into().unwrap() }
    }
}

/// `SWCurveConfig::COEFF_B` of `ark_bls12_381::g2::Config`: the constant
/// term `4 + 4u` of the equation of the twisted curve.
#[verifier::external_body]
pub(crate) fn g2_coeff_b() -> (r: Fq2)
    ensures
        r.wf(),
        r@ == (Fq2Value { c0: 4, c1: 4 }),
{
    let x = ark_bls12_381::g2::Config::COEFF_B;
    let d = |s: ArkFq| Fq { limbs: s.into_bigint().0 };
    let v: Vec<Fq> = x.to_base_prime_field_elements().map(d).collect();
    Fq2 { c: v.try_into().unwrap() }
}

impl Fq6 {
    pub open spec fn wf(&self) -> bool {
        all_wf(self.c@, 6)
    }

    pub fn zero() -> (r: Fq6)
        ensures
            r.wf(),
            r@ == fq6_zero(),
    {
        let z = Fq::zero();
        Fq6 { c: [z, z, z, z, z, z] }
    }

    pub fn one() -> (r: Fq6)
        ensures
            r.wf(),
            r@ == crate::math::tower::fq6_one(),
    {
        let z = Fq::zero();
        Fq6 { c: [Fq::one(), z, z, z, z, z] }
    }

    pub fn is_zero(&self) -> (r: bool)
        ensures
            r == (self@ == fq6_zero()),
    {
        self.c[0].is_zero() && self.c[1].is_zero() && self.c[2].is_zero() && self.c[3].is_zero()
            && self.c[4].is_zero() && self.c[5].is_zero()
    }

    /// `Field::inverse` of `ark_ff` on `ark_bls12_381::Fq6`: nothing for
    /// zero, and for any other element the one whose product with it is one.
    #[verifier::external_body]
    pub(crate) fn inverse(&self) -> (r: Option<Fq6>)
        requires
            self.wf(),
        ensures
            r is None <==> self@ == fq6_zero(),
            r is Some ==> r->0.wf() && fq6_is_inverse(self@, r->0@),
    {
        let e = |x: &Fq| ArkFq::from(BigInt(x.limbs));
        let x = ArkFq6::from_base_prime_field_elems(self.c.iter().map(e)).unwrap();
        let d = |s: ArkFq| Fq { limbs: s.into_bigint().0 };
        let y = x.inverse()?;
        let v: Vec<Fq> = y.to_base_prime_field_elements().map(d).collect();
        Some(Fq6 { c: v.try_into().unwrap() })
    }
}

impl Fq12 {
    pub open spec fn wf(&self) -> bool {
        all_wf(self.c@, 12)
    }

    pub fn one() -> (r: Fq12)
        ensures
            r.wf(),
            r@ == crate::math::tower::fq12_one(),
    {
        let z = Fq::zero();
        Fq12 { c: [Fq::one(), z, z, z, z, z, z, z, z, z, z, z] }
    }

    /// The coefficient of `1`.
    pub fn c0(&self) -> (r: Fq6)
        requires
            self.wf(),
        ensures
            r.wf(),
            r@ == self@.c0,
    {
        let c = &self.c;
        Fq6 { c: [c[0], c[1], c[2], c[3], c[4], c[5]] }
    }

    /// The coefficient of `w`.
    pub fn c1(&self) -> (r: Fq6)
        requires
            self.wf(),
        ensures
            r.wf(),
            r@ == self@.c1,
    {
        let c = &self.c;
        Fq6 { c: [c[6], c[7], c[8], c[9], c[10], c[11]] }
    }

    /// The element `c0 + c1 w`.
    pub fn new(c0: Fq6, c1: Fq6) -> (r: Fq12)
        requires
            c0.wf(),
            c1.wf(),
        ensures
            r.wf(),
            r@ == (Fq12Value { c0: c0@, c1: c1@ }),
    {
        let (a, b) = (&c0.c, &c1.c);
        Fq12 { c: [a[0], a[1], a[2], a[3], a[4], a[5], b[0], b[1], b[2], b[3], b[4], b[5]] }
    }

    /// `Mul::mul` of `ark_bls12_381::Fq12`: the product in the tower.
    #[verifier::external_body]
    pub(crate) fn mul(&self, rhs: &Fq12) -> (r: Fq12)
        requires
            self.wf(),
            rhs.wf(),
        ensures
            r.wf(),
            r@ == fq12_mul(self@, rhs@),
    {
        let e = |x: &Fq| ArkFq::from(BigInt(x.limbs));
        let x = ArkFq12::from_base_prime_field_elems(self.c.iter().map(e)).unwrap();
        let y = ArkFq12::from_base_prime_field_elems(rhs.c.iter().map(e)).unwrap();
        let d = |s: ArkFq| Fq { limbs: s.into_bigint().0 };
        let v: Vec<Fq> = (x * y).to_base_prime_field_elements().map(d).collect();
        Fq12 { c: v.try_into().unwrap() }
    }

    /// `Field::square_in_place` of `ark_ff` on `ark_bls12_381::Fq12`: the
    /// product of the element with itself.
    #[verifier::external_body]
    pub(crate) fn square(&self) -> (r: Fq12)
        requires
            self.wf(),
        ensures
            r.wf(),
            r@ == fq12_square(self@),
    {
        let e = |x: &Fq| ArkFq::from(BigInt(x.limbs));
        let mut x = ArkFq12::from_base_prime_field_elems(self.c.iter().map(e)).unwrap();
        x.square_in_place();
        let d = |s: ArkFq| Fq { limbs: s.into_bigint().0 };
        let v: Vec<Fq> = x.to_base_prime_field_elements().map(d).collect();
        Fq12 { c: v.try_into().unwrap() }
    }

    /// `Fp12::mul_by_014` of `ark_ff` on `ark_bls12_381::Fq12`: the product
    /// with the sparse element `(c0 + c1 v) + (c4 v) w`.
    #[verifier::external_body]
    pub(crate) fn mul_by_014(&self, c0: &Fq2, c1: &Fq2, c4: &Fq2) -> (r: Fq12)
        requires
            self.wf(),
            c0.wf(),
            c1.wf(),
            c4.wf(),
        ensures
            r.wf(),
            r@ == fq12_mul(self@, fq12_sparse_014(c0@, c1@, c4@)),
    {
        let e = |x: &Fq| ArkFq::from(BigInt(x.limbs));
        let f = |a: &Fq2| ArkFq2::new(e(&a.c[0]), e(&a.c[1]));
        let mut x = ArkFq12::from_base_prime_field_elems(self.c.iter().map(e)).unwrap();
        x.mul_by_014(&f(c0), &f(c1), &f(c4));
        let d = |s: ArkFq| Fq { limbs: s.into_bigint().0 };
        let v: Vec<Fq> = x.to_base_prime_field_elements().map(d).collect();
        Fq12 { c: v.try_into().unwrap() }
    }

    /// `QuadExtField::conjugate_in_place` of `ark_ff` on
    /// `ark_bls12_381::Fq12`: the coefficient of `w` negated.
    #[verifier::external_body]
    pub(crate) fn conjugate(&self) -> (r: Fq12)
        requires
            self.wf(),
        ensures
            r.wf(),
            r@ == fq12_conjugate(self@),
    {
        let e = |x: &Fq| ArkFq::from(BigInt(x.limbs));
        let mut x = ArkFq12::from_base_prime_field_elems(self.c.iter().map(e)).unwrap();
        x.conjugate_in_place();
        let d = |s: ArkFq| Fq { limbs: s.into_bigint().0 };
        let v: Vec<Fq> = x.to_base_prime_field_elements().map(d).collect();
        Fq12 { c: v.try_into().unwrap() }
    }
}

} // verus!
