use ark_bls12_381::{Bls12_381, Fq as ArkFq, Fq12 as ArkFq12, Fq2 as ArkFq2};
use ark_bls12_381::{G1Affine as ArkG1Affine, G2Affine as ArkG2Affine};
use ark_ec::pairing::Pairing;
use ark_ec::AffineRepr;
use ark_ff::{BigInt, Field, PrimeField, UniformRand};
use bls12_381_pairing::native::curves::{G1Affine, G2Affine};
use bls12_381_pairing::native::fields::{Fq, Fq12, Fq2};
use bls12_381_pairing::native::miller_loop::{
    ell, getter_of_prepared_pairs, multi_miller_loop_native, G1Prepared, G2Prepared, G2Projective,
};

fn fq(x: ArkFq) -> Fq {
    Fq::from_limbs(x.into_bigint().0).unwrap()
}

fn fq2(x: ArkFq2) -> Fq2 {
    Fq2::new(fq(x.c0), fq(x.c1))
}

fn ark_fq(x: &Fq) -> ArkFq {
    ArkFq::from_bigint(BigInt(x.limbs)).unwrap()
}

fn ark_fq2(x: &Fq2) -> ArkFq2 {
    ArkFq2::new(ark_fq(&x.c[0]), ark_fq(&x.c[1]))
}

fn fq12(x: ArkFq12) -> Fq12 {
    let v: Vec<Fq> = x.to_base_prime_field_elements().map(fq).collect();
    Fq12 { c: v.try_into().unwrap() }
}

fn ark_fq12(x: &Fq12) -> ArkFq12 {
    ArkFq12::from_base_prime_field_elems(x.c.iter().map(ark_fq)).unwrap()
}

fn g1(p: ArkG1Affine) -> G1Affine {
    match p.xy() {
        Some((x, y)) => G1Affine { x: fq(x), y: fq(y), infinity: false },
        None => G1Affine { x: Fq::zero(), y: Fq::zero(), infinity: true },
    }
}

fn g2(q: ArkG2Affine) -> G2Affine {
    match q.xy() {
        Some((x, y)) => G2Affine { x: fq2(x), y: fq2(y), infinity: false },
        None => G2Affine { x: Fq2::zero(), y: Fq2::zero(), infinity: true },
    }
}

#[test]
fn test_native_multi_miller_loop() {
    let rng = &mut rand::thread_rng();
    let p0 = ArkG1Affine::rand(rng);
    let q0 = ArkG2Affine::rand(rng);
    let ark_miller_loop_result = Bls12_381::miller_loop(p0, q0).0;
    let multi_miller_loop_result =
        multi_miller_loop_native(vec![G1Prepared(g1(p0))], vec![G2Prepared::from(g2(q0))]);

    assert_eq!(ark_fq12(&multi_miller_loop_result), ark_miller_loop_result);
}

#[test]
fn miller_loop_of_generators() {
    let p = ArkG1Affine::generator();
    let q = ArkG2Affine::generator();
    let expected = Bls12_381::miller_loop(p, q).0;
    let got = multi_miller_loop_native(vec![G1Prepared(g1(p))], vec![G2Prepared::from(g2(q))]);
    assert_eq!(got, fq12(expected));
}

#[test]
fn miller_loop_of_six_pairs_spans_two_batches() {
    let rng = &mut rand::thread_rng();
    let ps: Vec<ArkG1Affine> = (0..6).map(|_| ArkG1Affine::rand(rng)).collect();
    let qs: Vec<ArkG2Affine> = (0..6).map(|_| ArkG2Affine::rand(rng)).collect();
    let expected = Bls12_381::multi_miller_loop(ps.clone(), qs.clone()).0;
    let a = ps.iter().map(|p| G1Prepared(g1(*p))).collect();
    let b = qs.iter().map(|q| G2Prepared::from(g2(*q))).collect();
    assert_eq!(ark_fq12(&multi_miller_loop_native(a, b)), expected);
}

#[test]
fn miller_loop_of_no_pairs_is_one() {
    let got = multi_miller_loop_native(vec![], vec![]);
    assert_eq!(got, Fq12::one());
}

#[test]
fn pair_with_identity_contributes_nothing() {
    let rng = &mut rand::thread_rng();
    let p = ArkG1Affine::rand(rng);
    let q = ArkG2Affine::rand(rng);
    let p1 = ArkG1Affine::rand(rng);
    let q1 = ArkG2Affine::rand(rng);
    let without = multi_miller_loop_native(
        vec![G1Prepared(g1(p)), G1Prepared(g1(p1))],
        vec![G2Prepared::from(g2(q)), G2Prepared::from(g2(q1))],
    );
    let with_g1_identity = multi_miller_loop_native(
        vec![G1Prepared(g1(p)), G1Prepared(g1(ArkG1Affine::identity())), G1Prepared(g1(p1))],
        vec![G2Prepared::from(g2(q)), G2Prepared::from(g2(q1)), G2Prepared::from(g2(q1))],
    );
    let with_g2_identity = multi_miller_loop_native(
        vec![G1Prepared(g1(p)), G1Prepared(g1(p1)), G1Prepared(g1(p))],
        vec![
            G2Prepared::from(g2(q)),
            G2Prepared::from(g2(q1)),
            G2Prepared::from(g2(ArkG2Affine::identity())),
        ],
    );
    assert_eq!(with_g1_identity, without);
    assert_eq!(with_g2_identity, without);
    let only_identity = multi_miller_loop_native(
        vec![G1Prepared(g1(ArkG1Affine::identity()))],
        vec![G2Prepared::from(g2(q))],
    );
    assert_eq!(only_identity, Fq12::one());
}

#[test]
fn prepared_point_has_one_coefficient_per_line() {
    let q = G2Prepared::from(g2(ArkG2Affine::generator()));
    assert!(!q.is_zero());
    assert_eq!(q.ell_coeffs.len(), 68);
    let zero = G2Prepared::from(g2(ArkG2Affine::identity()));
    assert!(zero.is_zero());
    assert!(zero.ell_coeffs.is_empty());
}

#[test]
fn prepared_coefficients_are_those_of_the_reference() {
    let q = ArkG2Affine::generator();
    let expected = ark_ec::models::bls12::G2Prepared::<ark_bls12_381::Config>::from(q);
    let got = G2Prepared::from(g2(q));
    assert_eq!(got.ell_coeffs.len(), expected.ell_coeffs.len());
    for (c, e) in got.ell_coeffs.iter().zip(expected.ell_coeffs.iter()) {
        assert_eq!((ark_fq2(&c.0), ark_fq2(&c.1), ark_fq2(&c.2)), *e);
    }
}

#[test]
fn getter_keeps_finite_pairs_in_order() {
    let p = g1(ArkG1Affine::generator());
    let q = g2(ArkG2Affine::generator());
    let inf1 = g1(ArkG1Affine::identity());
    let inf2 = g2(ArkG2Affine::identity());
    let p2 = G1Affine { x: p.y, y: p.x, infinity: false };
    let pairs = getter_of_prepared_pairs(
        vec![G1Prepared(inf1), G1Prepared(p), G1Prepared(p), G1Prepared(p2)],
        vec![
            G2Prepared::from(q),
            G2Prepared::from(q),
            G2Prepared::from(inf2),
            G2Prepared::from(q),
        ],
    );
    assert_eq!(pairs.len(), 2);
    assert_eq!(pairs[0].0 .0, p);
    assert_eq!(pairs[1].0 .0, p2);
    assert_eq!(pairs[0].1, G2Prepared::from(q).ell_coeffs);
}

#[test]
fn ell_multiplies_by_the_line() {
    let rng = &mut rand::thread_rng();
    let p = ArkG1Affine::rand(rng);
    let c0 = ArkFq2::rand(rng);
    let c1 = ArkFq2::rand(rng);
    let c2 = ArkFq2::rand(rng);
    let f = ArkFq12::rand(rng);

    let mut expected = f;
    let (px, py) = p.xy().unwrap();
    let mut d1 = c1;
    let mut d2 = c2;
    d2.mul_assign_by_fp(&py);
    d1.mul_assign_by_fp(&px);
    expected.mul_by_014(&c0, &d1, &d2);

    let mut got = fq12(f);
    ell(&mut got, (fq2(c0), fq2(c1), fq2(c2)), g1(p));
    assert_eq!(ark_fq12(&got), expected);
}

#[test]
fn doubling_and_addition_follow_the_group_law() {
    let q = ArkG2Affine::generator();
    let two_inv = fq(ArkFq::from(2u64).inverse().unwrap());
    let (x, y) = q.xy().unwrap();
    let mut r = G2Projective { x: fq2(x), y: fq2(y), z: Fq2::one() };
    r.double_in_place(&two_inv);
    let double: ArkG2Affine = (q + q).into();
    assert_eq!(projective_to_affine(&r), double);
    r.add_in_place(&g2(q));
    let triple: ArkG2Affine = (q + q + q).into();
    assert_eq!(projective_to_affine(&r), triple);
}

fn projective_to_affine(r: &G2Projective) -> ArkG2Affine {
    let z_inv = ark_fq2(&r.z).inverse().unwrap();
    ArkG2Affine::new(ark_fq2(&r.x) * z_inv, ark_fq2(&r.y) * z_inv)
}

#[test]
fn empty_accumulator_is_zero_and_random_is_canonical() {
    let e = G2Projective::empty();
    assert_eq!(e.x, Fq2::zero());
    assert_eq!(e.y, Fq2::zero());
    assert_eq!(e.z, Fq2::zero());
    let r = G2Projective::random();
    for c in [r.x, r.y, r.z] {
        assert!(Fq::from_limbs(c.c[0].limbs).is_some());
        assert!(Fq::from_limbs(c.c[1].limbs).is_some());
    }
}
