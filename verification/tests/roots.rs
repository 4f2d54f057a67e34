use helib_rs::field::FieldElement;
use helib_rs::matrix::FFTMatrix;
use helib_rs::ntt::{has_order, log2_exact, NTTProcessor};
use helib_rs::roots::{fft_domain, get_groth16_root, get_minimal_root, roots_of_unity, trace_limbs};

#[test]
fn groth16_root_is_the_table_entry() {
    let (q, roots) = roots_of_unity();
    assert_eq!(q, FieldElement::from_u64(5));
    assert_eq!(roots.len(), 29);
    assert_eq!(roots[0], FieldElement::one());
    assert_eq!(roots[1], FieldElement::zero().sub(&FieldElement::one()));
    assert_eq!(
        roots[28].to_limbs(),
        [0x9bd61b6e725b19f0, 0x402d111e41112ed4, 0x00e0a7eb8ef62abc, 0x2a3c09f0a58a7e85]
    );
    assert_eq!(roots[28], q.pow(trace_limbs()));
    for level in 1..29 {
        assert_eq!(roots[level].square(), roots[level - 1]);
    }
    assert_eq!(get_groth16_root(4096), Some(roots[12]));
    assert_eq!(FFTMatrix::get_groth16_root(4096), Some(roots[12]));
    assert_eq!(
        get_groth16_root(8).map(|r| r.to_limbs()),
        Some([0x948dad4ac1bd5e80, 0x52627366f8170a0a, 0xec9b9e2f96afef36, 0x2b337de1c8c14f22])
    );
    assert_eq!(get_groth16_root(3), None);
    assert_eq!(get_groth16_root(0), None);
    assert_eq!(get_groth16_root(1 << 29), None);
}

#[test]
fn minimal_root_is_the_least_of_the_roots_of_its_order() {
    assert_eq!(get_minimal_root(1), Some(FieldElement::one()));
    assert_eq!(get_minimal_root(2), Some(FieldElement::zero().sub(&FieldElement::one())));
    assert_eq!(
        get_minimal_root(8).map(|r| r.to_limbs()),
        Some([0xaf5448492e42a181, 0xd5d174e181a26686, 0xcbb4a786ead16926, 0x0530d09118705106])
    );
    assert_eq!(get_minimal_root(6), None);
    assert_eq!(FFTMatrix::get_minimal_root(8), get_minimal_root(8));
    let root = get_minimal_root(64).expect("no root found!");
    assert!(has_order(&root, 64));
    assert!(!has_order(&root, 32));
    assert!(!has_order(&root, 128));
    let other = get_groth16_root(64).expect("no root found!");
    assert!(!other.lt(&root));
}

#[test]
fn exponents_of_powers_of_two() {
    assert_eq!(log2_exact(1), Some(0));
    assert_eq!(log2_exact(2), Some(1));
    assert_eq!(log2_exact(4096), Some(12));
    assert_eq!(log2_exact(1 << 28), Some(28));
    assert_eq!(log2_exact(1 << 29), None);
    assert_eq!(log2_exact(0), None);
    assert_eq!(log2_exact(12), None);
}

#[test]
fn checked_constructors_take_roots_of_the_right_order_only() {
    let root8 = get_groth16_root(8).expect("no root found!");
    let root16 = get_groth16_root(16).expect("no root found!");
    assert!(NTTProcessor::try_new(8, root8).is_some());
    assert!(NTTProcessor::try_new(8, root16).is_none());
    assert!(NTTProcessor::try_new(16, root8).is_none());
    assert!(NTTProcessor::try_new(6, root8).is_none());
    assert!(NTTProcessor::try_new(0, root8).is_none());
    assert!(NTTProcessor::try_new(8, FieldElement::zero()).is_none());
    assert!(NTTProcessor::try_new(8, FieldElement::from_raw_limbs([u64::MAX; 4])).is_none());
    assert!(NTTProcessor::try_new(1, FieldElement::one()).is_some());
    assert!(NTTProcessor::try_new_negacylic(8, root16).is_some());
    assert!(NTTProcessor::try_new_negacylic(8, root8).is_none());
    assert!(NTTProcessor::try_new_negacylic(1, FieldElement::zero().sub(&FieldElement::one())).is_some());
}

#[test]
fn fft_domain_transforms_with_the_groth16_root() {
    let domain = fft_domain(8);
    let root = get_groth16_root(8).expect("no root found!");
    let by_hand = NTTProcessor::new(8, root);
    let input: Vec<FieldElement> = (1..=8u64).map(FieldElement::from_u64).collect();
    assert_eq!(domain.ntt(&input), by_hand.ntt(&input));
    assert_eq!(domain.fft(&input), by_hand.ntt(&input));
}
