use ark_ff::{PrimeField, UniformRand, Zero};
use helib_rs::field::FieldElement;
use helib_rs::ntt::NTTProcessor;
use helib_rs::roots::{get_groth16_root, get_minimal_root, roots_of_unity};
use rand::thread_rng;

const NUM_TRIALS: usize = 5;
const N: usize = 4096;

fn to_element(x: ark_bn254::Fr) -> FieldElement {
    FieldElement::from_limbs(x.into_bigint().0).expect("canonical limbs")
}

fn to_ark(x: &FieldElement) -> ark_bn254::Fr {
    ark_bn254::Fr::from(ark_ff::BigInt(x.to_limbs()))
}

fn random_vec(len: usize) -> Vec<FieldElement> {
    let mut rng = thread_rng();
    (0..len).map(|_| to_element(ark_bn254::Fr::rand(&mut rng))).collect()
}

fn cyclic_naive_mult(a: &[FieldElement], b: &[FieldElement]) -> Vec<FieldElement> {
    let n = a.len();
    let a: Vec<ark_bn254::Fr> = a.iter().map(to_ark).collect();
    let b: Vec<ark_bn254::Fr> = b.iter().map(to_ark).collect();
    let mut c = vec![ark_bn254::Fr::zero(); n];
    for i in 0..n {
        for j in 0..n {
            c[(i + j) % n] += a[i] * b[j];
        }
    }
    c.into_iter().map(to_element).collect()
}

fn negacyclic_naive_mult(a: &[FieldElement], b: &[FieldElement]) -> Vec<FieldElement> {
    let n = a.len();
    let a: Vec<ark_bn254::Fr> = a.iter().map(to_ark).collect();
    let b: Vec<ark_bn254::Fr> = b.iter().map(to_ark).collect();
    let mut c = vec![ark_bn254::Fr::zero(); n];
    for i in 0..n {
        for j in 0..n {
            if i + j < n {
                c[i + j] += a[i] * b[j];
            } else {
                c[i + j - n] -= a[i] * b[j];
            }
        }
    }
    c.into_iter().map(to_element).collect()
}

#[test]
fn ntt_is_bijective() {
    let root = get_minimal_root(N).expect("no root found!");
    let ntt_proc = NTTProcessor::new(N, root);

    for _ in 0..NUM_TRIALS {
        let poly: Vec<_> = random_vec(N);
        let b = ntt_proc.ntt(&poly);
        let c = ntt_proc.intt(&b);

        assert_eq!(poly, c);
    }
}

#[test]
fn ntt_constant() {
    let root = get_minimal_root(N).expect("no root found!");
    let ntt_proc = NTTProcessor::new(N, root);

    let mut rng = thread_rng();
    for _ in 0..NUM_TRIALS {
        let mu = to_element(ark_bn254::Fr::rand(&mut rng));
        let mut poly = vec![FieldElement::zero(); N];
        poly[0] = mu.mul(&FieldElement::from_u64(N as u64));
        let b = vec![mu; N];

        let c = ntt_proc.ntt(&b);

        assert_eq!(poly, c);
    }
}

#[test]
fn negacyclic_ntt_mult_test() {
    let root = get_minimal_root(2 * N).expect("no root found!");
    let ntt_proc = NTTProcessor::new_negacylic(N, root);

    for _ in 0..NUM_TRIALS {
        let mut a: Vec<_> = random_vec(N);
        let mut b: Vec<_> = random_vec(N);
        let naive = negacyclic_naive_mult(&a, &b);

        ntt_proc.negacylcic_preprocess_two(&mut a, &mut b);
        let a_ntt = ntt_proc.ntt(&a);
        let b_ntt = ntt_proc.ntt(&b);

        let result_ntt: Vec<_> = a_ntt
            .iter()
            .zip(b_ntt.iter())
            .map(|(a_, b_)| a_.mul(b_))
            .collect();

        let mut result = ntt_proc.intt(&result_ntt);
        ntt_proc.negacylcic_postprocess(&mut result);

        assert_eq!(result, naive);
    }
}

#[test]
fn cyclic_ntt_mult_test() {
    let root = get_minimal_root(N).expect("no root found!"); // cyclic ntt
    let ntt_proc = NTTProcessor::new(N, root);

    for _ in 0..NUM_TRIALS {
        let a: Vec<_> = random_vec(N);
        let b: Vec<_> = random_vec(N);
        let naive = cyclic_naive_mult(&a, &b);

        let a_ntt = ntt_proc.ntt(&a);
        let b_ntt = ntt_proc.ntt(&b);

        let result_ntt: Vec<_> = a_ntt
            .iter()
            .zip(b_ntt.iter())
            .map(|(a_, b_)| a_.mul(b_))
            .collect();

        let result = ntt_proc.intt(&result_ntt);
        assert_eq!(result, naive);
    }
}

#[test]
fn cyclic_ntt_vs_ark_fft() {
    let root = get_minimal_root(N).expect("no root found!"); // cyclic ntt
    let ntt_proc = NTTProcessor::new(N, root);

    for _ in 0..NUM_TRIALS {
        let a: Vec<_> = random_vec(N);

        let a_ntt = ntt_proc.ntt(&a);
        let a_fft = ntt_proc.fft(&a);
        assert_eq!(a_ntt, a_fft);
    }
}

#[test]
fn cyclic_intt_vs_ark_ifft() {
    let root = get_minimal_root(N).expect("no root found!"); // cyclic ntt
    let ntt_proc = NTTProcessor::new(N, root);

    for _ in 0..NUM_TRIALS {
        let a: Vec<_> = random_vec(N);

        let a_ntt = ntt_proc.intt(&a);
        let a_fft = ntt_proc.ifft(&a);
        assert_eq!(a_ntt, a_fft);
    }
}

#[test]
fn cyclic_ntt_vs_ark_fft_groth_root() {
    let (_, roots) = roots_of_unity();
    let ntt_proc = NTTProcessor::new(N, roots[N.ilog2() as usize]);

    for _ in 0..NUM_TRIALS {
        let a: Vec<_> = random_vec(N);

        let a_ntt = ntt_proc.ntt(&a);
        let a_fft = ntt_proc.fft(&a);
        assert_eq!(a_ntt, a_fft);
    }
}

#[test]
fn cyclic_intt_vs_ark_ifft_groth_root() {
    let (_, roots) = roots_of_unity();
    let ntt_proc = NTTProcessor::new(N, roots[N.ilog2() as usize]);

    for _ in 0..NUM_TRIALS {
        let a: Vec<_> = random_vec(N);

        let a_ntt = ntt_proc.intt(&a);
        let a_fft = ntt_proc.ifft(&a);
        assert_eq!(a_ntt, a_fft);
    }
}

#[test]
fn ntt_golden_vector_of_length_eight() {
    let root = get_groth16_root(8).expect("no root found!");
    let ntt_proc = NTTProcessor::new(8, root);
    let input: Vec<FieldElement> = (1..=8u64).map(FieldElement::from_u64).collect();
    let expected: [[u64; 4]; 8] = [
        [0x24, 0x0, 0x0, 0x0],
        [0xe51461367a2f1796, 0xb5c94af009cb48e6, 0x7a309cdc72c7c8fc, 0x2701a4fd3f1d3e],
        [0x833fc48d823f2728, 0x2d270d45f1181294, 0xcf135e7506a45d63, 0x2],
        [0xde94d81b75b0c93e, 0x5b7b3064279b23bd, 0xdc09dff2657f0e36, 0x2701a4fd3f1d38],
        [0x43e1f593effffffd, 0x2833e84879b97091, 0xb85045b68181585d, 0x30644e72e131a029],
        [0x654d1d787a4f36bb, 0xccb8b7e4521e4cd3, 0xdc4665c41c024a26, 0x303d4ccde3f282f0],
        [0xc0a231066dc0d8d1, 0xfb0cdb0288a15dfc, 0xe93ce7417adcfaf9, 0x30644e72e131a026],
        [0x5ecd945d75d0e863, 0x726a9d586fee27aa, 0x3e1fa8da0eb98f60, 0x303d4ccde3f282eb],
    ];
    let output = ntt_proc.ntt(&input);
    let limbs: Vec<[u64; 4]> = output.iter().map(|e| e.to_limbs()).collect();
    assert_eq!(limbs, expected);

    // the same by evaluating the polynomial at every power of the root
    let r = to_ark(&root);
    let coefficients: Vec<ark_bn254::Fr> = input.iter().map(to_ark).collect();
    let mut point = ark_bn254::Fr::from(1u64);
    for k in 0..8 {
        let mut value = ark_bn254::Fr::zero();
        for c in coefficients.iter().rev() {
            value = value * point + c;
        }
        assert_eq!(output[k], to_element(value));
        point *= r;
    }
    assert_eq!(ntt_proc.intt(&output), input);
}

#[test]
fn ntt_in_place_agrees_with_ntt() {
    let root = get_minimal_root(64).expect("no root found!");
    let ntt_proc = NTTProcessor::new(64, root);
    let input = random_vec(64);
    let mut buffer = input.clone();
    ntt_proc.ntt_inplace(&mut buffer);
    assert_eq!(buffer, ntt_proc.ntt(&input));
    let mut fft_buffer = input.clone();
    ntt_proc.fft_inplace(&mut fft_buffer);
    assert_eq!(fft_buffer, buffer);
    ntt_proc.intt_inplace(&mut buffer);
    assert_eq!(buffer, input);
    ntt_proc.ifft_inplace(&mut fft_buffer);
    assert_eq!(fft_buffer, input);
}

#[test]
fn ntt_of_length_one_and_two() {
    let one = NTTProcessor::new(1, FieldElement::one());
    let x = random_vec(1);
    assert_eq!(one.ntt(&x), x);
    assert_eq!(one.intt(&x), x);
    assert_eq!(one.fft(&x), x);
    let minus_one = FieldElement::zero().sub(&FieldElement::one());
    let two = NTTProcessor::new(2, minus_one);
    let y = vec![FieldElement::from_u64(5), FieldElement::from_u64(3)];
    assert_eq!(two.ntt(&y), vec![FieldElement::from_u64(8), FieldElement::from_u64(2)]);
    assert_eq!(two.intt(&two.ntt(&y)), y);
}

#[test]
fn negacyclic_twists_multiply_by_the_powers_of_the_root() {
    let root = get_minimal_root(16).expect("no root found!");
    let ntt_proc = NTTProcessor::new_negacylic(8, root);
    let input = random_vec(8);
    let mut twisted = input.clone();
    ntt_proc.negacylcic_preprocess(&mut twisted);
    let mut power = FieldElement::one();
    for i in 0..8 {
        assert_eq!(twisted[i], input[i].mul(&power));
        power = power.mul(&root);
    }
    ntt_proc.negacylcic_postprocess(&mut twisted);
    assert_eq!(twisted, input);
}

#[test]
fn naive_convolutions_of_short_sequences() {
    let a: Vec<FieldElement> = [1u64, 2, 3, 4].iter().map(|x| FieldElement::from_u64(*x)).collect();
    let b: Vec<FieldElement> = [5u64, 6, 7, 8].iter().map(|x| FieldElement::from_u64(*x)).collect();
    let cyclic: Vec<FieldElement> =
        [66u64, 68, 66, 60].iter().map(|x| FieldElement::from_u64(*x)).collect();
    assert_eq!(helib_rs::naive::cyclic_naive_mult(&a, &b), cyclic);
    // (1 + 2X + 3X^2 + 4X^3)(5 + 6X + 7X^2 + 8X^3) modulo X^4 + 1
    let minus = |x: u64| FieldElement::zero().sub(&FieldElement::from_u64(x));
    let negacyclic = vec![minus(56), minus(36), FieldElement::from_u64(2), FieldElement::from_u64(60)];
    assert_eq!(helib_rs::naive::negacyclic_naive_mult(&a, &b), negacyclic);
    assert_eq!(helib_rs::naive::cyclic_naive_mult(&[], &[]), vec![]);
}

#[test]
fn naive_convolutions_agree_with_the_transforms() {
    let n = 64;
    let a = random_vec(n);
    let b = random_vec(n);
    let cyclic = helib_rs::naive::cyclic_naive_mult(&a, &b);
    assert_eq!(cyclic, cyclic_naive_mult(&a, &b));
    let negacyclic = helib_rs::naive::negacyclic_naive_mult(&a, &b);
    assert_eq!(negacyclic, negacyclic_naive_mult(&a, &b));

    let ntt_proc = NTTProcessor::new(n, get_minimal_root(n).expect("no root found!"));
    let product: Vec<_> = ntt_proc
        .ntt(&a)
        .iter()
        .zip(ntt_proc.ntt(&b).iter())
        .map(|(x, y)| x.mul(y))
        .collect();
    assert_eq!(ntt_proc.intt(&product), cyclic);

    let twisting = NTTProcessor::new_negacylic(n, get_minimal_root(2 * n).expect("no root found!"));
    let mut ta = a.clone();
    let mut tb = b.clone();
    twisting.negacylcic_preprocess_two(&mut ta, &mut tb);
    let product: Vec<_> = twisting
        .ntt(&ta)
        .iter()
        .zip(twisting.ntt(&tb).iter())
        .map(|(x, y)| x.mul(y))
        .collect();
    let mut result = twisting.intt(&product);
    twisting.negacylcic_postprocess(&mut result);
    assert_eq!(result, negacyclic);
}

#[test]
fn golden_vector_modulo_seventeen() {
    // two is a root of unity of order eight modulo seventeen
    let input = [1u64, 2, 3, 4, 5, 6, 7, 8];
    let output = helib_rs::naive::direct_transform(&input, 2, 17);
    assert_eq!(output, vec![2, 8, 14, 6, 13, 3, 12, 1]);
    // the inverse transform: with the inverse root, times the inverse of eight
    let back = helib_rs::naive::direct_transform(&output, 9, 17);
    let scaled: Vec<u64> = back.iter().map(|v| v * 15 % 17).collect();
    assert_eq!(scaled, input);
    assert_eq!(helib_rs::naive::direct_transform(&[5, 5, 5, 5], 4, 17), vec![3, 0, 0, 0]);
}
