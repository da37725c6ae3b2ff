use ark_bls12_381::{Fq as ArkFq, Fq12Config, Fq2 as ArkFq2, Fq6 as ArkFq6};
use ark_ff::{Field, Fp12Config, PrimeField, UniformRand, Zero};
use bls12_381_pairing::circuit::builder::{CircuitBuilder, Gate};
use bls12_381_pairing::circuit::witness::{
    evaluate, fill_witness, GeneratedValues, PartialWitness, PartitionWitness, WitnessError,
};
use bls12_381_pairing::fields::fq2_target::Fq2Target;
use bls12_381_pairing::fields::fq6_target::{Fq6InverseGenerator, Fq6Target};
use bls12_381_pairing::fields::fq_target::{BoolTarget, FqTarget};
use bls12_381_pairing::native::fields::{Fq, Fq2, Fq6};
use bls12_381_pairing::utils::my_fq6::MyFq6;

fn fq(x: ArkFq) -> Fq {
    Fq::from_limbs(x.into_bigint().0).unwrap()
}

fn fq2(x: ArkFq2) -> Fq2 {
    Fq2::new(fq(x.c0), fq(x.c1))
}

fn fq6(x: ArkFq6) -> Fq6 {
    let v: Vec<Fq> = x.to_base_prime_field_elements().map(fq).collect();
    Fq6 { c: v.try_into().unwrap() }
}

/// The value of `t` in the witness `w`.
fn value(t: &Fq6Target, w: &[Fq]) -> Fq6 {
    let coeffs: Vec<Fq> = t.coeffs.iter().map(|c| w[c.wire]).collect();
    MyFq6 { coeffs: coeffs.try_into().unwrap() }.into()
}

#[test]
fn test_fq6_inv_circuit() {
    let rng = &mut rand::thread_rng();
    let x: ArkFq6 = ArkFq6::rand(rng);
    let inv_x_expected = x.inverse().unwrap();

    let mut builder = CircuitBuilder::new();
    let x_t = Fq6Target::constant(&mut builder, fq6(x));
    let inv_x_t = x_t.inv(&mut builder);
    let inv_x_expected_t = Fq6Target::constant(&mut builder, fq6(inv_x_expected));

    Fq6Target::connect(&mut builder, &inv_x_t, &inv_x_expected_t);

    let pw = PartialWitness::new();
    let w = fill_witness(&builder, &pw).unwrap();
    assert_eq!(value(&inv_x_t, &w), fq6(inv_x_expected));
}

#[test]
fn test_mul_by_01() {
    let rng = &mut rand::thread_rng();
    let x: ArkFq6 = ArkFq6::rand(rng);
    let c0: ArkFq2 = ArkFq2::rand(rng);
    let c1: ArkFq2 = ArkFq2::rand(rng);

    let mut builder = CircuitBuilder::new();
    let x_t = Fq6Target::constant(&mut builder, fq6(x));
    let x_c0 = Fq2Target::constant(&mut builder, fq2(c0));
    let x_c1 = Fq2Target::constant(&mut builder, fq2(c1));
    let mut x = x;
    x.mul_by_01(&c0, &c1);

    let x_t = x_t.mul_by_01(&mut builder, &x_c0, &x_c1);

    let x_expected_t = Fq6Target::constant(&mut builder, fq6(x));

    Fq6Target::connect(&mut builder, &x_t, &x_expected_t);

    let pw = PartialWitness::new();
    let w = fill_witness(&builder, &pw).unwrap();
    assert_eq!(value(&x_t, &w), fq6(x));
}

#[test]
fn test_mul_by_1() {
    let rng = &mut rand::thread_rng();
    let x: ArkFq6 = ArkFq6::rand(rng);
    let c1: ArkFq2 = ArkFq2::rand(rng);

    let mut builder = CircuitBuilder::new();
    let x_t = Fq6Target::constant(&mut builder, fq6(x));
    let x_c1 = Fq2Target::constant(&mut builder, fq2(c1));
    let mut x = x;
    x.mul_by_1(&c1);

    let x_t = x_t.mul_by_1(&mut builder, &x_c1);

    let x_expected_t = Fq6Target::constant(&mut builder, fq6(x));

    Fq6Target::connect(&mut builder, &x_t, &x_expected_t);

    let pw = PartialWitness::new();
    let w = fill_witness(&builder, &pw).unwrap();
    assert_eq!(value(&x_t, &w), fq6(x));
}

#[test]
fn test_mul_fq6_by_nonresidue_in_place() {
    let rng = &mut rand::thread_rng();
    let x: ArkFq6 = ArkFq6::rand(rng);

    let mut builder = CircuitBuilder::new();
    let x_t = Fq6Target::constant(&mut builder, fq6(x));
    let mut x = x;
    Fq12Config::mul_fp6_by_nonresidue_in_place(&mut x);

    let x_t = x_t.mul_by_nonresidue(&mut builder);

    let x_expected_t = Fq6Target::constant(&mut builder, fq6(x));

    Fq6Target::connect(&mut builder, &x_t, &x_expected_t);

    let pw = PartialWitness::new();
    let w = fill_witness(&builder, &pw).unwrap();
    assert_eq!(value(&x_t, &w), fq6(x));
}

#[test]
fn circuit_arithmetic_agrees_with_native() {
    let rng = &mut rand::thread_rng();
    let x: ArkFq6 = ArkFq6::rand(rng);
    let y: ArkFq6 = ArkFq6::rand(rng);

    let mut builder = CircuitBuilder::new();
    let x_t = Fq6Target::constant(&mut builder, fq6(x));
    let y_t = Fq6Target::constant(&mut builder, fq6(y));
    let sum = x_t.add(&mut builder, &y_t);
    let difference = x_t.sub(&mut builder, &y_t);
    let negation = x_t.neg(&mut builder);
    let product = x_t.mul(&mut builder, &y_t);

    let w = fill_witness(&builder, &PartialWitness::new()).unwrap();
    assert_eq!(value(&sum, &w), fq6(x + y));
    assert_eq!(value(&difference, &w), fq6(x - y));
    assert_eq!(value(&negation, &w), fq6(-x));
    assert_eq!(value(&product, &w), fq6(x * y));
}

#[test]
fn product_folds_high_terms_onto_low_coefficients_only() {
    // (v^2) (v^2) = v^4 = (1 + u) v: the product touches the coefficients of v and u v,
    // and leaves those of v^2 alone.
    let v2 = ArkFq6::new(ArkFq2::zero(), ArkFq2::zero(), ArkFq2::new(ArkFq::from(1u64), ArkFq::zero()));
    let mut builder = CircuitBuilder::new();
    let t = Fq6Target::constant(&mut builder, fq6(v2));
    let product = t.mul(&mut builder, &t);
    let w = fill_witness(&builder, &PartialWitness::new()).unwrap();
    let one = Fq::one();
    let zero = Fq::zero();
    let got: Vec<Fq> = product.coeffs.iter().map(|c| w[c.wire]).collect();
    assert_eq!(got, vec![zero, one, zero, zero, one, zero]);
}

#[test]
fn sparse_products_agree_with_the_general_product() {
    let rng = &mut rand::thread_rng();
    let x: ArkFq6 = ArkFq6::rand(rng);
    let c0: ArkFq2 = ArkFq2::rand(rng);
    let c1: ArkFq2 = ArkFq2::rand(rng);

    let mut builder = CircuitBuilder::new();
    let x_t = Fq6Target::constant(&mut builder, fq6(x));
    let c0_t = Fq2Target::constant(&mut builder, fq2(c0));
    let c1_t = Fq2Target::constant(&mut builder, fq2(c1));
    let embedded_01 =
        Fq6Target::constant(&mut builder, fq6(ArkFq6::new(c0, c1, ArkFq2::zero())));
    let embedded_1 =
        Fq6Target::constant(&mut builder, fq6(ArkFq6::new(ArkFq2::zero(), c1, ArkFq2::zero())));
    let sparse_01 = x_t.mul_by_01(&mut builder, &c0_t, &c1_t);
    let sparse_1 = x_t.mul_by_1(&mut builder, &c1_t);
    let general_01 = x_t.mul(&mut builder, &embedded_01);
    let general_1 = x_t.mul(&mut builder, &embedded_1);
    let w = fill_witness(&builder, &PartialWitness::new()).unwrap();
    assert_eq!(value(&sparse_01, &w), value(&general_01, &w));
    assert_eq!(value(&sparse_1, &w), value(&general_1, &w));
}

#[test]
fn select_takes_first_on_true_and_second_on_false() {
    let rng = &mut rand::thread_rng();
    let a: ArkFq6 = ArkFq6::rand(rng);
    let b: ArkFq6 = ArkFq6::rand(rng);

    let mut builder = CircuitBuilder::new();
    let a_t = Fq6Target::constant(&mut builder, fq6(a));
    let b_t = Fq6Target::constant(&mut builder, fq6(b));
    let yes = BoolTarget::constant(&mut builder, true);
    let no = BoolTarget::constant(&mut builder, false);
    let on_true = Fq6Target::select(&mut builder, &a_t, &b_t, &yes);
    let on_false = Fq6Target::select(&mut builder, &a_t, &b_t, &no);
    let multiplied = a_t.conditional_mul(&mut builder, &b_t, &yes);
    let kept = a_t.conditional_mul(&mut builder, &b_t, &no);

    let w = fill_witness(&builder, &PartialWitness::new()).unwrap();
    assert_eq!(value(&on_true, &w), fq6(a));
    assert_eq!(value(&on_false, &w), fq6(b));
    assert_eq!(value(&multiplied, &w), fq6(a * b));
    assert_eq!(value(&kept, &w), fq6(a));
}

#[test]
fn flag_from_the_witness_steers_the_selection() {
    let mut builder = CircuitBuilder::new();
    let a = FqTarget::constant(&mut builder, fq(ArkFq::from(7u64)));
    let b = FqTarget::constant(&mut builder, fq(ArkFq::from(9u64)));
    let flag = BoolTarget::empty(&mut builder);
    let chosen = FqTarget::select(&mut builder, &a, &b, &flag);

    let mut pw = PartialWitness::new();
    pw.set_target(FqTarget { wire: flag.wire }, Fq::one());
    let w = fill_witness(&builder, &pw).unwrap();
    assert_eq!(w[chosen.wire], fq(ArkFq::from(7u64)));

    let mut pw = PartialWitness::new();
    pw.set_target(FqTarget { wire: flag.wire }, Fq::zero());
    let w = fill_witness(&builder, &pw).unwrap();
    assert_eq!(w[chosen.wire], fq(ArkFq::from(9u64)));

    let mut pw = PartialWitness::new();
    pw.set_target(FqTarget { wire: flag.wire }, fq(ArkFq::from(2u64)));
    assert_eq!(fill_witness(&builder, &pw), Err(WitnessError::Unsatisfied(flag.wire)));

    assert_eq!(
        fill_witness(&builder, &PartialWitness::new()),
        Err(WitnessError::Undetermined(chosen.wire))
    );
}

#[test]
fn inverse_of_zero_has_no_witness() {
    let mut builder = CircuitBuilder::new();
    let zero = Fq6Target::constant(&mut builder, Fq6::zero());
    let generator_gate = builder.gates.len() + 6;
    let _ = zero.inv(&mut builder);
    assert_eq!(
        fill_witness(&builder, &PartialWitness::new()),
        Err(WitnessError::NotInvertible(generator_gate))
    );
}

#[test]
fn wrong_inverse_breaks_the_constraint() {
    let rng = &mut rand::thread_rng();
    let x: ArkFq6 = ArkFq6::rand(rng);
    let mut builder = CircuitBuilder::new();
    let x_t = Fq6Target::constant(&mut builder, fq6(x));
    let inv_t = x_t.inv(&mut builder);
    let wrong = Fq6Target::constant(&mut builder, fq6(x.inverse().unwrap() + ArkFq6::from(1u64)));
    let first_connect = builder.gates.len();
    Fq6Target::connect(&mut builder, &inv_t, &wrong);
    assert_eq!(
        fill_witness(&builder, &PartialWitness::new()),
        Err(WitnessError::Unsatisfied(first_connect))
    );
}

#[test]
fn given_value_for_generated_wire_must_agree() {
    let rng = &mut rand::thread_rng();
    let x: ArkFq6 = ArkFq6::rand(rng);
    let mut builder = CircuitBuilder::new();
    let x_t = Fq6Target::constant(&mut builder, fq6(x));
    let generator_gate = builder.gates.len() + 6;
    let inv_t = x_t.inv(&mut builder);

    let inverse = MyFq6::from(fq6(x.inverse().unwrap()));
    let mut pw = PartialWitness::new();
    pw.set_target(inv_t.coeffs[2], inverse.coeffs[2]);
    assert!(fill_witness(&builder, &pw).is_ok());

    let mut pw = PartialWitness::new();
    pw.set_target(inv_t.coeffs[2], fq(ArkFq::from(5u64)));
    assert_eq!(fill_witness(&builder, &pw), Err(WitnessError::Unsatisfied(generator_gate)));
}

#[test]
fn generator_hands_out_the_native_inverse() {
    let rng = &mut rand::thread_rng();
    let x: ArkFq6 = ArkFq6::rand(rng);
    let given = MyFq6::from(fq6(x));
    let generator = Fq6InverseGenerator {
        x: Fq6Target::from_wires([0, 1, 2, 3, 4, 5]),
        inv: Fq6Target::from_wires([6, 7, 8, 9, 10, 11]),
    };
    assert_eq!(generator.dependencies(), vec![0, 1, 2, 3, 4, 5]);
    assert_eq!(generator.id(), "Fq6InverseGenerator");
    let mut values: Vec<Option<Fq>> = given.coeffs.iter().map(|c| Some(*c)).collect();
    values.extend([None; 6]);
    let witness = PartitionWitness { values };
    assert_eq!(generator.input(&witness), fq6(x));
    let mut out = GeneratedValues::new();
    generator.run_once(&witness, &mut out);
    let expected = MyFq6::from(fq6(x.inverse().unwrap()));
    assert_eq!(out.target_values.len(), 6);
    for (k, (target, value)) in out.target_values.iter().enumerate() {
        assert_eq!(target.wire, 6 + k);
        assert_eq!(*value, expected.coeffs[k]);
    }
}

#[test]
fn coefficient_order_of_the_circuit_form() {
    let rng = &mut rand::thread_rng();
    let x: ArkFq6 = ArkFq6::rand(rng);
    let c = MyFq6::from(fq6(x));
    let expected = [x.c0.c0, x.c1.c0, x.c2.c0, x.c0.c1, x.c1.c1, x.c2.c1];
    for k in 0..6 {
        assert_eq!(c.coeffs[k], fq(expected[k]));
    }
    assert_eq!(c.into(), fq6(x));
}

#[test]
fn empty_and_new_and_connect() {
    let mut builder = CircuitBuilder::new();
    let e = Fq6Target::empty(&mut builder);
    assert_eq!(builder.gates, vec![Gate::Virtual; 6]);
    let n = Fq6Target::new(e.coeffs.to_vec());
    assert_eq!(n, e);
    let c = Fq6Target::constant(&mut builder, Fq6::one());
    Fq6Target::connect(&mut builder, &e, &c);
    assert_eq!(
        fill_witness(&builder, &PartialWitness::new()),
        Err(WitnessError::Undetermined(12))
    );
    let mut pw = PartialWitness::new();
    pw.set_target(e.coeffs[0], Fq::one());
    for k in 1..6 {
        pw.set_target(e.coeffs[k], Fq::zero());
    }
    let w = fill_witness(&builder, &pw).unwrap();
    assert_eq!(value(&e, &w), Fq6::one());
    let mut pw = PartialWitness::new();
    for k in 0..6 {
        pw.set_target(e.coeffs[k], Fq::zero());
    }
    assert_eq!(fill_witness(&builder, &pw), Err(WitnessError::Unsatisfied(12)));
}

#[test]
fn circuit_of_arithmetic_gates_always_evaluates() {
    let rng = &mut rand::thread_rng();
    let x: ArkFq6 = ArkFq6::rand(rng);
    let y: ArkFq6 = ArkFq6::rand(rng);
    let mut builder = CircuitBuilder::new();
    let x_t = Fq6Target::constant(&mut builder, fq6(x));
    let y_t = Fq6Target::constant(&mut builder, fq6(y));
    let product = x_t.mul(&mut builder, &y_t);
    let w = evaluate(&builder);
    assert_eq!(w.len(), builder.gates.len());
    assert_eq!(value(&product, &w), fq6(x * y));
    assert_eq!(Ok(w), fill_witness(&builder, &PartialWitness::new()));
}
