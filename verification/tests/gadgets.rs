use ark_bls12_381::{Fq as ArkFq, Fq12 as ArkFq12, Fq2 as ArkFq2, Fq6 as ArkFq6};
use ark_bls12_381::{G1Affine as ArkG1Affine, G2Affine as ArkG2Affine};
use ark_ec::AffineRepr;
use ark_ff::{AdditiveGroup, Field, PrimeField, UniformRand};
use bls12_381_pairing::circuit::builder::{CircuitBuilder, Gate};
use bls12_381_pairing::circuit::witness::{evaluate, fill_witness, PartialWitness, WitnessError};
use bls12_381_pairing::curves::g1::G1AffineTarget;
use bls12_381_pairing::curves::g2::{G2AffineTarget, G2PreparedTarget};
use bls12_381_pairing::fields::fq12_target::Fq12Target;
use bls12_381_pairing::fields::fq2_target::Fq2Target;
use bls12_381_pairing::fields::fq6_target::Fq6Target;
use bls12_381_pairing::fields::fq_target::{BoolTarget, FqTarget};
use bls12_381_pairing::native::curves::{G1Affine, G2Affine};
use bls12_381_pairing::native::fields::{Fq, Fq12, Fq2, Fq6};
use bls12_381_pairing::native::miller_loop::G2Prepared;
use bls12_381_pairing::utils::constants::{loop_bit_at, BLS_X, BLS_X_IS_NEGATIVE, LOOP_STEPS};
use bls12_381_pairing::utils::my_fq6::MyFq6;
use rand::rngs::StdRng;
use rand::SeedableRng;

const MODULUS: [u64; 6] = [
    0xb9feffffffffaaab,
    0x1eabfffeb153ffff,
    0x6730d2a0f6b0f624,
    0x64774b84f38512bf,
    0x4b1ba7b6434bacd7,
    0x1a0111ea397fe69a,
];

fn small(n: u64) -> Fq {
    Fq::from_limbs([n, 0, 0, 0, 0, 0]).unwrap()
}

/// The modulus less `n`, for a small `n`.
fn modulus_less(n: u64) -> Fq {
    let mut limbs = MODULUS;
    limbs[0] -= n;
    Fq::from_limbs(limbs).unwrap()
}

fn from_ark(x: ArkFq) -> Fq {
    Fq::from_limbs(x.into_bigint().0).unwrap()
}

fn from_ark2(x: ArkFq2) -> Fq2 {
    Fq2::new(from_ark(x.c0), from_ark(x.c1))
}

fn from_ark6(x: ArkFq6) -> Fq6 {
    let v: Vec<Fq> = x.to_base_prime_field_elements().map(from_ark).collect();
    Fq6 { c: v.try_into().unwrap() }
}

fn from_ark12(x: ArkFq12) -> Fq12 {
    let v: Vec<Fq> = x.to_base_prime_field_elements().map(from_ark).collect();
    Fq12 { c: v.try_into().unwrap() }
}

fn value2(t: &Fq2Target, w: &[Fq]) -> Fq2 {
    Fq2::new(w[t.coeffs[0].wire], w[t.coeffs[1].wire])
}

fn value6(t: &Fq6Target, w: &[Fq]) -> Fq6 {
    let coeffs: Vec<Fq> = t.coeffs.iter().map(|c| w[c.wire]).collect();
    MyFq6 { coeffs: coeffs.try_into().unwrap() }.into()
}

fn value12(t: &Fq12Target, w: &[Fq]) -> Fq12 {
    Fq12::new(value6(&t.c0, w), value6(&t.c1, w))
}

#[test]
fn base_field_gates_reduce_by_the_modulus() {
    let mut builder = CircuitBuilder::new();
    let seven = FqTarget::constant(&mut builder, small(7));
    let nine = FqTarget::constant(&mut builder, small(9));
    let top = FqTarget::constant(&mut builder, modulus_less(1));
    let sum = seven.add(&mut builder, &nine);
    let wrapped_sum = top.add(&mut builder, &nine);
    let difference = seven.sub(&mut builder, &nine);
    let product = seven.mul(&mut builder, &nine);
    let wrapped_product = top.mul(&mut builder, &top);
    let negation = seven.neg(&mut builder);
    let w = evaluate(&builder);
    assert_eq!(w[sum.wire], small(16));
    assert_eq!(w[wrapped_sum.wire], small(8));
    assert_eq!(w[difference.wire], modulus_less(2));
    assert_eq!(w[product.wire], small(63));
    assert_eq!(w[wrapped_product.wire], small(1));
    assert_eq!(w[negation.wire], modulus_less(7));
    assert_eq!(
        builder.gates[sum.wire],
        Gate::Add(seven.wire, nine.wire)
    );
}

#[test]
fn equality_and_zero_of_field_elements() {
    assert!(small(3).equals(&small(3)));
    assert!(!small(3).equals(&modulus_less(3)));
    assert!(Fq::zero().is_zero());
    assert!(!Fq::one().is_zero());
    assert!(Fq6::zero().is_zero());
    assert!(!Fq6::one().is_zero());
    assert_eq!(from_ark12(ArkFq12::ONE), Fq12::one());
    assert_eq!(from_ark6(ArkFq6::ONE), Fq6::one());
    assert_eq!(from_ark2(ArkFq2::ONE), Fq2::one());
    assert_eq!(from_ark2(ArkFq2::ZERO), Fq2::zero());
}

#[test]
fn parts_of_a_duodecimal_element() {
    let rng = &mut StdRng::seed_from_u64(3);
    let x = ArkFq12::rand(rng);
    let lifted = from_ark12(x);
    assert_eq!(lifted.c0(), from_ark6(x.c0));
    assert_eq!(lifted.c1(), from_ark6(x.c1));
    assert_eq!(Fq12::new(lifted.c0(), lifted.c1()), lifted);
}

#[test]
fn quadratic_gadgets_agree_with_native() {
    let rng = &mut StdRng::seed_from_u64(2);
    let x = ArkFq2::rand(rng);
    let y = ArkFq2::rand(rng);
    let k = ArkFq::rand(rng);
    let mut builder = CircuitBuilder::new();
    let x_t = Fq2Target::constant(&mut builder, from_ark2(x));
    let y_t = Fq2Target::constant(&mut builder, from_ark2(y));
    let k_t = FqTarget::constant(&mut builder, from_ark(k));
    let yes = BoolTarget::constant(&mut builder, true);
    let no = BoolTarget::constant(&mut builder, false);
    let sum = x_t.add(&mut builder, &y_t);
    let difference = x_t.sub(&mut builder, &y_t);
    let negation = x_t.neg(&mut builder);
    let product = x_t.mul(&mut builder, &y_t);
    let scaled = x_t.mul_assign_by_fp(&mut builder, k_t);
    let shifted = x_t.mul_by_nonresidue(&mut builder);
    let first = Fq2Target::select(&mut builder, &x_t, &y_t, &yes);
    let second = Fq2Target::select(&mut builder, &x_t, &y_t, &no);
    let w = evaluate(&builder);
    assert_eq!(value2(&sum, &w), from_ark2(x + y));
    assert_eq!(value2(&difference, &w), from_ark2(x - y));
    assert_eq!(value2(&negation, &w), from_ark2(-x));
    assert_eq!(value2(&product, &w), from_ark2(x * y));
    let mut expected = x;
    expected.mul_assign_by_fp(&k);
    assert_eq!(value2(&scaled, &w), from_ark2(expected));
    assert_eq!(value2(&shifted, &w), from_ark2(x * ArkFq2::new(ArkFq::ONE, ArkFq::ONE)));
    assert_eq!(value2(&first, &w), from_ark2(x));
    assert_eq!(value2(&second, &w), from_ark2(y));
}

#[test]
fn quadratic_wires_can_be_left_to_the_witness() {
    let mut builder = CircuitBuilder::new();
    let e = Fq2Target::empty(&mut builder);
    let n = Fq2Target::new(e.coeffs.to_vec());
    assert_eq!(n, e);
    let c = Fq2Target::constant(&mut builder, Fq2::one());
    Fq2Target::connect(&mut builder, &e, &c);
    let mut pw = PartialWitness::new();
    pw.set_target(e.coeffs[0], Fq::one());
    pw.set_target(e.coeffs[1], Fq::zero());
    assert!(fill_witness(&builder, &pw).is_ok());
    let mut pw = PartialWitness::new();
    pw.set_target(e.coeffs[0], Fq::one());
    pw.set_target(e.coeffs[1], Fq::one());
    assert_eq!(fill_witness(&builder, &pw), Err(WitnessError::Unsatisfied(5)));
}

#[test]
fn duodecimal_gadgets_agree_with_native() {
    let rng = &mut StdRng::seed_from_u64(4);
    let x = ArkFq12::rand(rng);
    let y = ArkFq12::rand(rng);
    let z = ArkFq12::rand(rng);
    let c0 = ArkFq2::rand(rng);
    let c1 = ArkFq2::rand(rng);
    let c4 = ArkFq2::rand(rng);
    let mut builder = CircuitBuilder::new();
    let x_t = Fq12Target::constant(&mut builder, from_ark12(x));
    let y_t = Fq12Target::constant(&mut builder, from_ark12(y));
    let z_t = Fq12Target::constant(&mut builder, from_ark12(z));
    let c0_t = Fq2Target::constant(&mut builder, from_ark2(c0));
    let c1_t = Fq2Target::constant(&mut builder, from_ark2(c1));
    let c4_t = Fq2Target::constant(&mut builder, from_ark2(c4));
    let product = x_t.mul(&mut builder, &y_t);
    let sparse = x_t.mul_by_014(&mut builder, &c0_t, &c1_t, &c4_t);
    let conjugate = x_t.conjugate(&mut builder);
    let all = Fq12Target::multiply_elements(&mut builder, &vec![x_t, y_t, z_t]).unwrap();
    let one = Fq12Target::multiply_elements(&mut builder, &vec![x_t]).unwrap();
    assert_eq!(Fq12Target::multiply_elements(&mut builder, &vec![]), None);
    let w = evaluate(&builder);
    assert_eq!(value12(&product, &w), from_ark12(x * y));
    let mut expected = x;
    expected.mul_by_014(&c0, &c1, &c4);
    assert_eq!(value12(&sparse, &w), from_ark12(expected));
    let mut expected = x;
    expected.conjugate_in_place();
    assert_eq!(value12(&conjugate, &w), from_ark12(expected));
    assert_eq!(value12(&all, &w), from_ark12(x * y * z));
    assert_eq!(value12(&one, &w), from_ark12(x));
}

#[test]
fn points_on_wires() {
    let p = ArkG1Affine::generator();
    let (x, y) = p.xy().unwrap();
    let native = G1Affine { x: from_ark(x), y: from_ark(y), infinity: false };
    assert!(!native.is_zero());
    assert_eq!(native.xy(), Some((from_ark(x), from_ark(y))));
    let at_infinity = G1Affine { x: Fq::zero(), y: Fq::zero(), infinity: true };
    assert!(at_infinity.is_zero());
    assert_eq!(at_infinity.xy(), None);

    let mut builder = CircuitBuilder::new();
    let p_t = G1AffineTarget::constant(&mut builder, native);
    assert!(!p_t.is_zero());
    let (x_t, y_t) = p_t.xy().unwrap();
    let w = evaluate(&builder);
    assert_eq!(w[x_t.wire], from_ark(x));
    assert_eq!(w[y_t.wire], from_ark(y));
    let gone = G1AffineTarget { x: p_t.x, y: p_t.y, infinity: true };
    assert!(gone.is_zero());
    assert!(gone.xy().is_none());
}

#[test]
fn preparation_on_wires_gives_the_native_coefficients() {
    let q = ArkG2Affine::generator();
    let (x, y) = q.xy().unwrap();
    let native = G2Affine { x: from_ark2(x), y: from_ark2(y), infinity: false };
    assert!(!native.is_zero());
    assert_eq!(native.xy(), Some((from_ark2(x), from_ark2(y))));
    let expected = G2Prepared::from(native);

    let mut builder = CircuitBuilder::new();
    let q_t = G2AffineTarget::constant(&mut builder, native);
    assert!(!q_t.is_zero());
    let prepared = G2PreparedTarget::from(&mut builder, q_t);
    assert!(!prepared.is_zero());
    let w = evaluate(&builder);
    assert_eq!(prepared.ell_coeffs.len(), expected.ell_coeffs.len());
    for (t, c) in prepared.ell_coeffs.iter().zip(expected.ell_coeffs.iter()) {
        assert_eq!((value2(&t.0, &w), value2(&t.1, &w), value2(&t.2, &w)), *c);
    }

    let before = builder.gates.len();
    let gone = G2AffineTarget { x: q_t.x, y: q_t.y, infinity: true };
    let nothing = G2PreparedTarget::from(&mut builder, gone);
    assert!(nothing.is_zero());
    assert!(nothing.ell_coeffs.is_empty());
    assert_eq!(builder.gates.len(), before);
}

#[test]
fn schedule_of_the_loop() {
    assert_eq!(BLS_X, 0xd201000000010000);
    assert!(BLS_X_IS_NEGATIVE);
    assert_eq!(LOOP_STEPS, 63);
    let set: Vec<usize> = (0..LOOP_STEPS).filter(|i| loop_bit_at(*i)).collect();
    // bits 62, 60, 57, 48 and 16 of the parameter
    assert_eq!(set, vec![0, 2, 5, 14, 46]);
    let reference: Vec<bool> =
        ark_ff::BitIteratorBE::without_leading_zeros([BLS_X]).skip(1).collect();
    let schedule: Vec<bool> = (0..LOOP_STEPS).map(loop_bit_at).collect();
    assert_eq!(schedule, reference);
}

#[test]
fn doubling_a_base_field_element_in_the_half() {
    // The preparation uses one half; twice one half is one.
    let half = from_ark(ArkFq::from(2u64).inverse().unwrap());
    let mut builder = CircuitBuilder::new();
    let h = FqTarget::constant(&mut builder, half);
    let twice = h.add(&mut builder, &h);
    let w = evaluate(&builder);
    assert_eq!(w[twice.wire], Fq::one());
    assert_eq!(from_ark(ArkFq::from(2u64).inverse().unwrap().double()), Fq::one());
}
