use ark_ff::{Field, PrimeField, UniformRand};
use helib_rs::field::{FieldElement, LegendreSymbol, MODULUS_0, MODULUS_1, MODULUS_2, MODULUS_3};
use rand::thread_rng;

fn element(x: ark_bn254::Fr) -> FieldElement {
    FieldElement::from_limbs(x.into_bigint().0).expect("canonical limbs")
}

#[test]
fn modulus_limbs_are_those_of_the_field() {
    assert_eq!(ark_bn254::Fr::MODULUS.0, [MODULUS_0, MODULUS_1, MODULUS_2, MODULUS_3]);
}

#[test]
fn from_limbs_takes_what_is_below_the_modulus() {
    assert_eq!(FieldElement::from_limbs([0, 0, 0, 0]), Some(FieldElement::zero()));
    assert_eq!(FieldElement::from_limbs([1, 0, 0, 0]), Some(FieldElement::one()));
    let below = [MODULUS_0 - 1, MODULUS_1, MODULUS_2, MODULUS_3];
    assert_eq!(FieldElement::from_limbs(below).map(|e| e.to_limbs()), Some(below));
    assert_eq!(FieldElement::from_limbs([MODULUS_0, MODULUS_1, MODULUS_2, MODULUS_3]), None);
    assert_eq!(FieldElement::from_limbs([0, 0, 0, MODULUS_3 + 1]), None);
    assert_eq!(FieldElement::from_limbs([u64::MAX; 4]), None);
    assert!(FieldElement::from_raw_limbs(below).is_wf());
    assert!(!FieldElement::from_raw_limbs([u64::MAX; 4]).is_wf());
}

#[test]
fn small_numbers_are_added_multiplied_and_subtracted() {
    let three = FieldElement::from_u64(3);
    let seven = FieldElement::from_u64(7);
    assert_eq!(three.add(&seven), FieldElement::from_u64(10));
    assert_eq!(three.mul(&seven), FieldElement::from_u64(21));
    assert_eq!(seven.sub(&three), FieldElement::from_u64(4));
    assert_eq!(three.square(), FieldElement::from_u64(9));
    let minus_four = three.sub(&seven);
    assert_eq!(
        minus_four.to_limbs(),
        [MODULUS_0 - 4, MODULUS_1, MODULUS_2, MODULUS_3]
    );
    assert_eq!(minus_four.add(&FieldElement::from_u64(4)), FieldElement::zero());
    assert!(FieldElement::zero().is_zero());
    assert!(!three.is_zero());
    assert!(three.lt(&seven));
    assert!(!seven.lt(&three));
    assert!(seven.lt(&minus_four));
}

#[test]
fn inverse_of_three_and_of_zero() {
    let three = FieldElement::from_u64(3);
    let inverse = three.inverse().expect("three is not zero");
    assert_eq!(
        inverse.to_limbs(),
        [0x2d414e62a0000001, 0x70229adafbd0f5b6, 0xd03583cf0100e593, 0x2042def740cbc01b]
    );
    assert_eq!(three.mul(&inverse), FieldElement::one());
    assert_eq!(FieldElement::zero().inverse(), None);
}

#[test]
fn powers_and_legendre_symbols() {
    let two = FieldElement::from_u64(2);
    assert_eq!(two.pow([10, 0, 0, 0]), FieldElement::from_u64(1024));
    assert_eq!(two.pow([0, 0, 0, 0]), FieldElement::one());
    assert_eq!(two.pow([0, 1, 0, 0]), element(ark_bn254::Fr::from(2u64).pow([0u64, 1])));
    assert_eq!(FieldElement::zero().legendre(), LegendreSymbol::Zero);
    assert_eq!(FieldElement::from_u64(4).legendre(), LegendreSymbol::QuadraticResidue);
    assert_eq!(FieldElement::from_u64(5).legendre(), LegendreSymbol::QuadraticNonResidue);
}

#[test]
fn arithmetic_agrees_with_the_field_on_random_elements() {
    let mut rng = thread_rng();
    for _ in 0..200 {
        let a = ark_bn254::Fr::rand(&mut rng);
        let b = ark_bn254::Fr::rand(&mut rng);
        assert_eq!(element(a).add(&element(b)), element(a + b));
        assert_eq!(element(a).sub(&element(b)), element(a - b));
        assert_eq!(element(a).mul(&element(b)), element(a * b));
        assert_eq!(element(a).inverse(), a.inverse().map(element));
        assert_eq!(element(a).lt(&element(b)), a.into_bigint() < b.into_bigint());
    }
}
