use ark_bls12_381::{Bls12_381, Fq as ArkFq, Fq12 as ArkFq12, Fq2 as ArkFq2};
use ark_bls12_381::{G1Affine as ArkG1Affine, G2Affine as ArkG2Affine};
use ark_ec::pairing::Pairing;
use ark_ec::AffineRepr;
use ark_ff::{Field, PrimeField, UniformRand};
use bls12_381_pairing::circuit::builder::CircuitBuilder;
use bls12_381_pairing::circuit::witness::{fill_witness, PartialWitness};
use bls12_381_pairing::curves::g1::{G1AffineTarget, G1PreparedTarget};
use bls12_381_pairing::curves::g2::{G2AffineTarget, G2PreparedTarget};
use bls12_381_pairing::fields::fq12_target::Fq12Target;
use bls12_381_pairing::fields::fq2_target::Fq2Target;
use bls12_381_pairing::fields::fq6_target::Fq6Target;
use bls12_381_pairing::fields::fq_target::FqTarget;
use bls12_381_pairing::miller_loop::{ell_target, multi_miller_loop};
use bls12_381_pairing::native::curves::{G1Affine, G2Affine};
use bls12_381_pairing::native::fields::{Fq, Fq12, Fq2};
use bls12_381_pairing::native::miller_loop::{
    ell, multi_miller_loop_native, G1Prepared, G2Prepared,
};
use bls12_381_pairing::utils::my_fq6::MyFq6;
use rand::rngs::StdRng;
use rand::SeedableRng;

fn lift_fq(x: ArkFq) -> Fq {
    Fq::from_limbs(x.into_bigint().0).unwrap()
}

fn lift_fq2(x: ArkFq2) -> Fq2 {
    Fq2::new(lift_fq(x.c0), lift_fq(x.c1))
}

fn lift_fq12(x: ArkFq12) -> Fq12 {
    let v: Vec<Fq> = x.to_base_prime_field_elements().map(lift_fq).collect();
    Fq12 { c: v.try_into().unwrap() }
}

fn lift_g1(p: ArkG1Affine) -> G1Affine {
    match p.xy() {
        Some((x, y)) => G1Affine { x: lift_fq(x), y: lift_fq(y), infinity: false },
        None => G1Affine { x: Fq::zero(), y: Fq::zero(), infinity: true },
    }
}

fn lift_g2(q: ArkG2Affine) -> G2Affine {
    match q.xy() {
        Some((x, y)) => G2Affine { x: lift_fq2(x), y: lift_fq2(y), infinity: false },
        None => G2Affine { x: Fq2::zero(), y: Fq2::zero(), infinity: true },
    }
}

/// The value of `t` in the witness `w`.
fn witness_value(t: &Fq12Target, w: &[Fq]) -> Fq12 {
    let half = |h: &Fq6Target| {
        let coeffs: Vec<Fq> = h.coeffs.iter().map(|c| w[c.wire]).collect();
        MyFq6 { coeffs: coeffs.try_into().unwrap() }.into()
    };
    Fq12::new(half(&t.c0), half(&t.c1))
}

fn g1_target(builder: &mut CircuitBuilder, p: ArkG1Affine) -> G1PreparedTarget {
    if p.is_zero() {
        let zero = FqTarget { wire: 0 };
        G1PreparedTarget(G1AffineTarget { x: zero, y: zero, infinity: true })
    } else {
        G1PreparedTarget(G1AffineTarget::constant(builder, lift_g1(p)))
    }
}

fn g2_target(builder: &mut CircuitBuilder, q: ArkG2Affine) -> G2PreparedTarget {
    if q.is_zero() {
        let zero = Fq2Target { coeffs: [FqTarget { wire: 0 }; 2] };
        let q_t = G2AffineTarget { x: zero, y: zero, infinity: true };
        G2PreparedTarget::from(builder, q_t)
    } else {
        let q_t = G2AffineTarget::constant(builder, lift_g2(q));
        G2PreparedTarget::from(builder, q_t)
    }
}

/// The value that the circuit form of the loop takes on the given pairs.
fn circuit_miller_loop(ps: &[ArkG1Affine], qs: &[ArkG2Affine]) -> Fq12 {
    let mut builder = CircuitBuilder::new();
    let a = ps.iter().map(|p| g1_target(&mut builder, *p)).collect();
    let b = qs.iter().map(|q| g2_target(&mut builder, *q)).collect();
    let r_t = multi_miller_loop(&mut builder, a, b);
    let w = fill_witness(&builder, &PartialWitness::new()).unwrap();
    witness_value(&r_t, &w)
}

fn native_miller_loop(ps: &[ArkG1Affine], qs: &[ArkG2Affine]) -> Fq12 {
    let a = ps.iter().map(|p| G1Prepared(lift_g1(*p))).collect();
    let b = qs.iter().map(|q| G2Prepared::from(lift_g2(*q))).collect();
    multi_miller_loop_native(a, b)
}

#[test]
fn test_miller_loop_circuit() {
    let mut builder = CircuitBuilder::new();
    let rng = &mut rand::thread_rng();
    let p = ArkG1Affine::rand(rng);
    let q = ArkG2Affine::rand(rng);
    let r_expected = Bls12_381::miller_loop(p, q).0;

    let p_prepared_t = vec![G1PreparedTarget(G1AffineTarget::constant(&mut builder, lift_g1(p)))];
    let q_t = G2AffineTarget::constant(&mut builder, lift_g2(q));
    let q_prepared_t = vec![G2PreparedTarget::from(&mut builder, q_t)];

    let r_t = multi_miller_loop(&mut builder, p_prepared_t, q_prepared_t);

    let r_expected_t = Fq12Target::constant(&mut builder, lift_fq12(r_expected));

    Fq12Target::connect(&mut builder, &r_t, &r_expected_t);

    let pw = PartialWitness::new();
    let w = fill_witness(&builder, &pw).unwrap();
    assert_eq!(witness_value(&r_t, &w), lift_fq12(r_expected));
}

#[test]
fn test_ell_target() {
    let mut builder = CircuitBuilder::new();
    let rng = &mut rand::thread_rng();
    let p = ArkG1Affine::rand(rng);
    let g2_coeff_c0: ArkFq2 = ArkFq2::rand(rng);
    let g2_coeff_c1: ArkFq2 = ArkFq2::rand(rng);
    let g2_coeff_c2: ArkFq2 = ArkFq2::rand(rng);
    let f: ArkFq12 = ArkFq12::rand(rng);

    let g2_coeff_c0_t = Fq2Target::constant(&mut builder, lift_fq2(g2_coeff_c0));
    let g2_coeff_c1_t = Fq2Target::constant(&mut builder, lift_fq2(g2_coeff_c1));
    let g2_coeff_c2_t = Fq2Target::constant(&mut builder, lift_fq2(g2_coeff_c2));
    let p_t = G1AffineTarget::constant(&mut builder, lift_g1(p));
    let f_t = Fq12Target::constant(&mut builder, lift_fq12(f));

    let mut f = lift_fq12(f);
    ell(
        &mut f,
        (lift_fq2(g2_coeff_c0), lift_fq2(g2_coeff_c1), lift_fq2(g2_coeff_c2)),
        lift_g1(p),
    );
    let f_t = ell_target(&mut builder, &f_t, (g2_coeff_c0_t, g2_coeff_c1_t, g2_coeff_c2_t), p_t);

    let f_expected = Fq12Target::constant(&mut builder, f);
    Fq12Target::connect(&mut builder, &f_t, &f_expected);

    let pw = PartialWitness::new();
    let w = fill_witness(&builder, &pw).unwrap();
    assert_eq!(witness_value(&f_t, &w), f);
}

#[test]
fn fixed_points_give_the_reference_value_in_both_forms() {
    let rng = &mut StdRng::seed_from_u64(381);
    let p = ArkG1Affine::rand(rng);
    let q = ArkG2Affine::rand(rng);
    let expected = lift_fq12(Bls12_381::miller_loop(p, q).0);
    assert_eq!(native_miller_loop(&[p], &[q]), expected);
    assert_eq!(circuit_miller_loop(&[p], &[q]), expected);
}

#[test]
fn generators_give_the_reference_value_in_both_forms() {
    let p = ArkG1Affine::generator();
    let q = ArkG2Affine::generator();
    let expected = lift_fq12(Bls12_381::miller_loop(p, q).0);
    assert_eq!(native_miller_loop(&[p], &[q]), expected);
    assert_eq!(circuit_miller_loop(&[p], &[q]), expected);
}

#[test]
fn circuit_drops_pairs_with_a_point_at_infinity() {
    let rng = &mut StdRng::seed_from_u64(7);
    let p = ArkG1Affine::rand(rng);
    let q = ArkG2Affine::rand(rng);
    let without = circuit_miller_loop(&[p], &[q]);
    let with_identities = circuit_miller_loop(
        &[ArkG1Affine::identity(), p, p],
        &[q, q, ArkG2Affine::identity()],
    );
    assert_eq!(with_identities, without);
    assert_eq!(circuit_miller_loop(&[ArkG1Affine::identity()], &[q]), Fq12::one());
    assert_eq!(circuit_miller_loop(&[], &[]), Fq12::one());
}

#[test]
fn batches_of_one_give_the_product_of_one_batch() {
    let rng = &mut StdRng::seed_from_u64(12);
    let ps: Vec<ArkG1Affine> = (0..3).map(|_| ArkG1Affine::rand(rng)).collect();
    let qs: Vec<ArkG2Affine> = (0..3).map(|_| ArkG2Affine::rand(rng)).collect();
    // all three in one batch
    let together = native_miller_loop(&ps, &qs);
    // each pair in a batch of its own: the loop is conjugated once per call,
    // and conjugation goes through products
    let mut apart = ArkFq12::ONE;
    for (p, q) in ps.iter().zip(qs.iter()) {
        let single = native_miller_loop(&[*p], &[*q]);
        apart *= ArkFq12::from_base_prime_field_elems(
            single.c.iter().map(|c| ArkFq::from_bigint(ark_ff::BigInt(c.limbs)).unwrap()),
        )
        .unwrap();
    }
    assert_eq!(together, lift_fq12(apart));
}

#[test]
fn five_pairs_span_two_batches_in_the_circuit() {
    let rng = &mut StdRng::seed_from_u64(5);
    let ps: Vec<ArkG1Affine> = (0..5).map(|_| ArkG1Affine::rand(rng)).collect();
    let qs: Vec<ArkG2Affine> = (0..5).map(|_| ArkG2Affine::rand(rng)).collect();
    let expected = lift_fq12(Bls12_381::multi_miller_loop(ps.clone(), qs.clone()).0);
    assert_eq!(native_miller_loop(&ps, &qs), expected);
    assert_eq!(circuit_miller_loop(&ps, &qs), expected);
}
