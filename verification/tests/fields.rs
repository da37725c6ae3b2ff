use bls12_381_pairing::native::fields::Fq;

#[test]
fn one_is_canonical() {
    let one = Fq::one();
    assert_eq!(Fq::from_limbs(one.limbs), Some(one));
}

#[test]
fn modulus_is_rejected() {
    let p = [
        0xb9feffffffffaaab,
        0x1eabfffeb153ffff,
        0x6730d2a0f6b0f624,
        0x64774b84f38512bf,
        0x4b1ba7b6434bacd7,
        0x1a0111ea397fe69a,
    ];
    assert_eq!(Fq::from_limbs(p), None);
    let mut below = p;
    below[0] -= 1;
    assert!(Fq::from_limbs(below).is_some());
}
