use ark_ff::{PrimeField, UniformRand};
use helib_rs::bsgs::{
    check_shape, diagonal, fft_selector, required_keys, split, Bsgs, Variant,
};
use helib_rs::engine::{evaluate_plain, evaluate_registers, Instruction};
use helib_rs::error::Error;
use helib_rs::field::FieldElement;
use helib_rs::matrix::{FFTMatrix, MatrixBlock, OffsetMatrix, SplittableMatrix, SquareMatrix};
use helib_rs::ntt::NTTProcessor;
use helib_rs::product::plain_matrix_ctxt_vector;
use helib_rs::roots::get_minimal_root;
use helib_rs::slots::{add_slots, check_batch, multiply_slots, rotate, try_pack};
use rand::thread_rng;

const N: usize = 256;

fn random_element() -> FieldElement {
    let mut rng = thread_rng();
    FieldElement::from_limbs(ark_bn254::Fr::rand(&mut rng).into_bigint().0).expect("canonical limbs")
}

fn numbers(list: &[u64]) -> Vec<FieldElement> {
    list.iter().map(|x| FieldElement::from_u64(*x)).collect()
}

fn plain_mat_vec(matrix: &[Vec<FieldElement>], vec: &[FieldElement]) -> Vec<FieldElement> {
    assert_eq!(matrix.len(), vec.len());
    matrix.iter().for_each(|i| assert_eq!(i.len(), vec.len()));
    matrix
        .iter()
        .map(|row| {
            row.iter()
                .zip(vec)
                .fold(FieldElement::zero(), |acc, (a, b)| acc.add(&a.mul(b)))
        })
        .collect()
}

fn bsgs_case(dim: usize, slots: usize) {
    let (n1, n2) = split(dim).expect("power of two");
    let vec = (0..dim).map(|_| random_element()).collect::<Vec<_>>();
    let mat = (0..dim)
        .map(|_| (0..dim).map(|_| random_element()).collect::<Vec<_>>())
        .collect::<Vec<_>>();
    let expected = plain_mat_vec(&mat, &vec);

    let keys = Bsgs::bsgs_indices(n1, n2, slots);
    let plan = Bsgs::babystep_giantstep(&mat, slots, n1, n2).expect("valid shape");
    assert_eq!(plan.registers, 3 + n1);
    assert_eq!(plan.slots, slots);
    assert_eq!(plan.plaintexts.len(), dim);
    let output = evaluate_plain(&plan.program, &plan.plaintexts, plan.registers, &vec, slots, &keys)
        .expect("all keys are there");
    assert_eq!(output.len(), slots);
    assert_eq!(expected, &output[..dim]);
    assert_eq!(Bsgs::evaluate_plain(&mat, &vec, slots, n1, n2, &keys), Ok(output));

    // every step that is asked for is listed, and every listed step is asked for
    for ins in plan.program.iter() {
        if let Instruction::Rotate { step, .. } = ins {
            assert!(keys.contains(step));
        }
    }
    for missing in 0..keys.len() {
        let mut fewer = keys.clone();
        let step = fewer.remove(missing);
        assert!(!fewer.contains(&step));
        let refused = Bsgs::evaluate_plain(&mat, &vec, slots, n1, n2, &fewer);
        assert_eq!(refused, Err(Error::MissingKey { step }));
    }
}

#[test]
fn bsgs_test() {
    let dim = N >> 1;
    let n2 = 1 << (dim.ilog2() >> 1);
    let n1 = dim / n2;
    assert_eq!(split(dim), Ok((n1, n2)));

    let vec = (0..dim).map(|_| random_element()).collect::<Vec<_>>();
    let mat = (0..dim)
        .map(|_| (0..dim).map(|_| random_element()).collect::<Vec<_>>())
        .collect::<Vec<_>>();

    let expected = plain_mat_vec(&mat, &vec);

    let keys = Bsgs::bsgs_indices(n1, n2, N);
    let decoded = Bsgs::evaluate_plain(&mat, &vec, N, n1, n2, &keys).unwrap();
    assert_eq!(expected, &decoded[..dim]);
}

#[test]
fn bsgs_plain_fully_packed() {
    for dim in [1usize, 2, 4, 16, 64, 256] {
        bsgs_case(dim, 2 * dim);
    }
}

#[test]
fn bsgs_plain_spare_room() {
    for dim in [1usize, 2, 4, 16, 64] {
        bsgs_case(dim, 4 * dim + 1);
        bsgs_case(dim, 8 * dim);
        bsgs_case(dim, 1024);
    }
    bsgs_case(256, 2048);
}

#[test]
fn bsgs_with_uneven_step_counts() {
    // any two factors of the dimension will do
    let dim = 12;
    let vec = (0..dim).map(|_| random_element()).collect::<Vec<_>>();
    let mat = (0..dim)
        .map(|_| (0..dim).map(|_| random_element()).collect::<Vec<_>>())
        .collect::<Vec<_>>();
    let expected = plain_mat_vec(&mat, &vec);
    for (n1, n2) in [(12, 1), (6, 2), (4, 3), (3, 4), (2, 6), (1, 12)] {
        for slots in [24, 49, 100] {
            let keys = Bsgs::bsgs_indices(n1, n2, slots);
            let output = Bsgs::evaluate_plain(&mat, &vec, slots, n1, n2, &keys).unwrap();
            assert_eq!(expected, &output[..dim]);
        }
    }
}

#[test]
fn bsgs_steps_for_sixteen() {
    assert_eq!(split(16), Ok((4, 4)));
    assert_eq!(split(8), Ok((4, 2)));
    assert_eq!(split(2), Ok((2, 1)));
    assert_eq!(split(1), Ok((1, 1)));
    assert_eq!(split(12), Err(Error::NotPowerOfTwo));
    assert_eq!(split(0), Err(Error::NotPowerOfTwo));
    assert_eq!(Bsgs::bsgs_indices(4, 4, 32), vec![1, 4, 8, 12]);
    assert_eq!(Bsgs::bsgs_indices(4, 4, 128), vec![1, 4, 8, 12, -16]);
    assert_eq!(Bsgs::bsgs_indices(4, 2, 16), vec![1, 4]);
    assert_eq!(Bsgs::bsgs_indices(1, 1, 2), Vec::<i32>::new());
    assert_eq!(Bsgs::bsgs_indices(1, 1, 16), vec![-1]);
    assert_eq!(Bsgs::bsgs_indices(1, 3, 16), vec![1, 2, -3]);
}

#[test]
fn bsgs_program_for_four() {
    let mat = (0..4).map(|r| numbers(&[r, r + 1, r + 2, r + 3])).collect::<Vec<_>>();
    let plan = Bsgs::babystep_giantstep(&mat, 8, 2, 2).expect("valid shape");
    assert_eq!(
        plan.program,
        vec![
            Instruction::Copy { dst: 3, src: 0 },
            Instruction::Copy { dst: 4, src: 3 },
            Instruction::Rotate { reg: 4, step: 1 },
            Instruction::MulPlain { dst: 2, src: 3, plaintext: 0 },
            Instruction::MulPlain { dst: 1, src: 4, plaintext: 1 },
            Instruction::Add { dst: 2, src: 1 },
            Instruction::Move { dst: 0, src: 2 },
            Instruction::MulPlain { dst: 2, src: 3, plaintext: 2 },
            Instruction::MulPlain { dst: 1, src: 4, plaintext: 3 },
            Instruction::Add { dst: 2, src: 1 },
            Instruction::Rotate { reg: 2, step: 2 },
            Instruction::Add { dst: 0, src: 2 },
        ]
    );
    let spare = Bsgs::babystep_giantstep(&mat, 32, 2, 2).expect("valid shape");
    assert_eq!(
        &spare.program[..3],
        &[
            Instruction::Copy { dst: 1, src: 0 },
            Instruction::Rotate { reg: 1, step: -4 },
            Instruction::Add { dst: 0, src: 1 },
        ]
    );
    assert_eq!(&spare.program[3..], &plan.program[..]);
}

#[test]
fn diagonals_of_a_small_matrix() {
    // entry (r, c) is 10 r + c
    let mat = (0..4u64)
        .map(|r| numbers(&[10 * r, 10 * r + 1, 10 * r + 2, 10 * r + 3]))
        .collect::<Vec<_>>();
    assert_eq!(diagonal(&mat, 0, 2, false), numbers(&[0, 11, 22, 33]));
    assert_eq!(diagonal(&mat, 1, 2, false), numbers(&[1, 12, 23, 30]));
    // rows 2 and 3 belong to giant step 1: rotated to the right by two
    assert_eq!(diagonal(&mat, 2, 2, false), numbers(&[20, 31, 2, 13]));
    assert_eq!(diagonal(&mat, 3, 2, false), numbers(&[21, 32, 3, 10]));
    assert_eq!(diagonal(&mat, 1, 2, true), numbers(&[1, 12, 23, 30]));
    assert_eq!(diagonal(&mat, 2, 2, true), numbers(&[0, 0, 2, 13, 20, 31]));
    assert_eq!(diagonal(&mat, 3, 2, true), numbers(&[0, 0, 3, 10, 21, 32]));
}

#[test]
fn shapes_are_refused_with_their_reason() {
    assert_eq!(check_shape(4, 2, 2, 8), Ok(()));
    assert_eq!(check_shape(4, 2, 2, 17), Ok(()));
    assert_eq!(check_shape(4, 2, 2, 16), Err(Error::Packing));
    assert_eq!(check_shape(4, 2, 2, 9), Err(Error::Packing));
    assert_eq!(check_shape(4, 2, 2, 4), Err(Error::Packing));
    assert_eq!(check_shape(4, 2, 3, 8), Err(Error::Dimension));
    assert_eq!(check_shape(4, 0, 0, 8), Err(Error::Dimension));
    assert_eq!(check_shape(0, 0, 0, 0), Err(Error::Dimension));
    assert_eq!(check_shape(1 << 31, 1 << 31, 1, usize::MAX), Err(Error::Dimension));

    let mat = (0..4).map(|_| numbers(&[1, 2, 3, 4])).collect::<Vec<_>>();
    let vec = numbers(&[1, 1, 1, 1]);
    let keys = Bsgs::bsgs_indices(2, 2, 8);
    assert!(matches!(Bsgs::babystep_giantstep(&mat, 16, 2, 2), Err(Error::Packing)));
    assert!(matches!(Bsgs::babystep_giantstep(&mat, 8, 4, 2), Err(Error::Dimension)));
    assert_eq!(Bsgs::evaluate_plain(&mat, &vec, 8, 2, 2, &keys), Ok(numbers(&[10, 10, 10, 10, 0, 0, 0, 0])));
    assert_eq!(Bsgs::evaluate_plain(&mat, &vec[..3].to_vec(), 8, 2, 2, &keys), Err(Error::Dimension));
    assert_eq!(Bsgs::evaluate_plain(&mat, &vec, 12, 2, 2, &keys), Err(Error::Packing));
    assert_eq!(Bsgs::evaluate_plain(&mat, &vec, 8, 2, 2, &vec![2]), Err(Error::MissingKey { step: 1 }));
    assert_eq!(Bsgs::evaluate_plain(&mat, &vec, 8, 2, 2, &vec![1]), Err(Error::MissingKey { step: 2 }));
}

#[test]
fn the_engine_refuses_what_is_not_there() {
    let input = numbers(&[1, 2, 3, 4]);
    let plaintexts = vec![numbers(&[2, 2, 2, 2])];
    let keys = vec![1];
    let run = |program: Vec<Instruction>, registers: usize, slots: usize| {
        evaluate_plain(&program, &plaintexts, registers, &input, slots, &keys)
    };
    assert_eq!(run(vec![], 1, 4), Ok(numbers(&[1, 2, 3, 4])));
    assert_eq!(run(vec![], 1, 6), Ok(numbers(&[1, 2, 3, 4, 0, 0])));
    assert_eq!(run(vec![], 1, 3), Err(Error::BatchSlots));
    assert_eq!(run(vec![], 0, 4), Err(Error::InvalidProgram));
    assert_eq!(run(vec![Instruction::Copy { dst: 1, src: 0 }], 1, 4), Err(Error::InvalidProgram));
    assert_eq!(
        run(vec![Instruction::MulPlain { dst: 0, src: 0, plaintext: 1 }], 1, 4),
        Err(Error::InvalidProgram)
    );
    assert_eq!(
        run(vec![Instruction::MulPlain { dst: 0, src: 0, plaintext: 0 }], 1, 4),
        Ok(numbers(&[2, 4, 6, 8]))
    );
    assert_eq!(
        run(vec![Instruction::Rotate { reg: 0, step: 1 }], 1, 4),
        Ok(numbers(&[2, 1, 4, 3]))
    );
    assert_eq!(
        run(vec![Instruction::Rotate { reg: 0, step: 2 }], 1, 4),
        Err(Error::MissingKey { step: 2 })
    );
    assert_eq!(
        run(
            vec![
                Instruction::Copy { dst: 1, src: 0 },
                Instruction::Rotate { reg: 1, step: 1 },
                Instruction::Add { dst: 0, src: 1 },
                Instruction::Move { dst: 1, src: 0 },
            ],
            2,
            4
        ),
        Ok(numbers(&[3, 3, 7, 7]))
    );
}

#[test]
fn slots_are_rotated_within_their_rows() {
    let c = numbers(&[0, 1, 2, 3, 10, 11, 12, 13]);
    assert_eq!(rotate(&c, 0), c);
    assert_eq!(rotate(&c, 1), numbers(&[1, 2, 3, 0, 11, 12, 13, 10]));
    assert_eq!(rotate(&c, -1), numbers(&[3, 0, 1, 2, 13, 10, 11, 12]));
    assert_eq!(rotate(&c, 4), c);
    assert_eq!(rotate(&c, 5), rotate(&c, 1));
    assert_eq!(rotate(&c, -7), rotate(&c, 1));
    assert_eq!(rotate(&c, i32::MIN), c);
    let odd = numbers(&[0, 1, 2, 3, 4]);
    assert_eq!(rotate(&odd, 1), numbers(&[1, 0, 3, 2, 4]));
    assert_eq!(rotate(&numbers(&[7]), 3), numbers(&[7]));
    assert_eq!(add_slots(&numbers(&[1, 2]), &numbers(&[3, 4])), numbers(&[4, 6]));
    assert_eq!(multiply_slots(&numbers(&[1, 2]), &numbers(&[3, 4])), numbers(&[3, 8]));
}

#[test]
fn packing_fails_only_for_too_many_values() {
    assert_eq!(check_batch(4, 4), Ok(()));
    assert_eq!(check_batch(0, 0), Ok(()));
    assert_eq!(check_batch(5, 4), Err(Error::BatchSlots));
    assert_eq!(try_pack(&numbers(&[1, 2]), 4), Ok(numbers(&[1, 2, 0, 0])));
    assert_eq!(try_pack(&numbers(&[1, 2]), 2), Ok(numbers(&[1, 2])));
    assert_eq!(try_pack(&numbers(&[1, 2]), 1), Err(Error::BatchSlots));
}

#[test]
fn layouts_and_their_keys() {
    assert_eq!(fft_selector(16, 64), Variant::Packed);
    assert_eq!(fft_selector(16, 33), Variant::Packed);
    assert_eq!(fft_selector(32, 64), Variant::FullyPacked);
    assert_eq!(fft_selector(33, 64), Variant::MultipleOfPacksize);
    assert_eq!(fft_selector(64, 64), Variant::MultipleOfPacksize);
    assert_eq!(fft_selector(128, 64), Variant::MultipleOfPacksize);
    assert_eq!(fft_selector(usize::MAX, 64), Variant::MultipleOfPacksize);
    assert_eq!(fft_selector(0, 0), Variant::FullyPacked);
    assert_eq!(required_keys(16, 128), Ok(vec![1, 4, 8, 12, -16]));
    assert_eq!(required_keys(16, 32), Ok(vec![1, 4, 8, 12, 0]));
    assert_eq!(required_keys(32, 32), Ok(vec![1, 4, 8, 12, 0]));
    assert_eq!(required_keys(128, 32), Ok(vec![1, 4, 8, 12, 0]));
    assert_eq!(required_keys(12, 32), Err(Error::NotPowerOfTwo));
    assert_eq!(required_keys(32, 24), Err(Error::NotPowerOfTwo));
}

#[test]
fn the_matrix_of_a_transform_transforms() {
    for (dim, slots) in [(8usize, 16usize), (8, 64), (64, 128), (64, 1024)] {
        let root = get_minimal_root(dim).expect("no root found!");
        let ntt_proc = NTTProcessor::new(dim, root);
        let input = (0..dim).map(|_| random_element()).collect::<Vec<_>>();
        let expected_output = ntt_proc.fft(&input);
        assert_eq!(expected_output, ntt_proc.ntt(&input));

        let (n1, n2) = split(dim).expect("power of two");
        let keys = required_keys(dim, slots).expect("power of two");
        let mat = FFTMatrix::new(dim, root);
        assert_eq!(mat.dimension(), dim);
        let output = Bsgs::evaluate_plain(&mat, &input, slots, n1, n2, &keys).unwrap();
        assert_eq!(expected_output, &output[..dim]);
    }
}

#[test]
fn matrices_and_their_windows() {
    let rows = (0..4u64)
        .map(|r| numbers(&[10 * r, 10 * r + 1, 10 * r + 2, 10 * r + 3]))
        .collect::<Vec<_>>();
    assert_eq!(SquareMatrix::dimension(&rows), 4);
    assert_eq!(SquareMatrix::get(&rows, 2, 3), FieldElement::from_u64(23));

    let whole = SplittableMatrix::new(rows.clone());
    assert_eq!(whole.dimension(), 4);
    assert_eq!(whole.get(1, 2), FieldElement::from_u64(12));
    let mut block = whole.clone();
    block.set_row_offset(2);
    assert_eq!(block.dimension(), 2);
    assert_eq!(block.get(0, 1), FieldElement::from_u64(21));
    block.set_col_offset(1);
    assert_eq!(block.dimension(), 2);
    assert_eq!(block.get(1, 1), FieldElement::from_u64(32));
    block.set_col_offset(3);
    assert_eq!(block.dimension(), 1);
    assert_eq!(block.get(0, 0), FieldElement::from_u64(23));
    assert_eq!(whole.get(0, 0), FieldElement::zero());

    // a block of a shared matrix is multiplied like a matrix of its own
    let mut lower = whole.clone();
    lower.set_row_offset(2);
    lower.set_col_offset(2);
    let corner = vec![numbers(&[22, 23]), numbers(&[32, 33])];
    let vec = numbers(&[3, 5]);
    let keys = Bsgs::bsgs_indices(2, 1, 4);
    assert_eq!(
        Bsgs::evaluate_plain(&lower, &vec, 4, 2, 1, &keys),
        Bsgs::evaluate_plain(&corner, &vec, 4, 2, 1, &keys)
    );

    let root = get_minimal_root(4).expect("no root found!");
    let mut fft = FFTMatrix::new(4, root);
    assert_eq!(fft.get(0, 3), FieldElement::one());
    assert_eq!(fft.get(1, 1), root);
    assert_eq!(fft.get(3, 3), root);
    assert_eq!(fft.get(2, 3), root.mul(&root));
    fft.set_row_offset(2);
    assert_eq!(fft.dimension(), 2);
    assert_eq!(fft.get(1, 1), root.mul(&root).mul(&root));
}

#[test]
fn a_vector_of_ciphertexts_is_multiplied_row_by_row() {
    let mat = vec![numbers(&[1, 2, 3]), numbers(&[4, 5, 6]), numbers(&[7, 8, 9])];
    let program = plain_matrix_ctxt_vector(&mat, 3).expect("the vector has the dimension");
    assert_eq!(program.len(), 3 * (1 + 2 * 2));
    assert_eq!(
        &program[..5],
        &[
            Instruction::MulScalar { dst: 3, src: 0, scalar: FieldElement::from_u64(1) },
            Instruction::MulScalar { dst: 6, src: 1, scalar: FieldElement::from_u64(2) },
            Instruction::Add { dst: 3, src: 6 },
            Instruction::MulScalar { dst: 6, src: 2, scalar: FieldElement::from_u64(3) },
            Instruction::Add { dst: 3, src: 6 },
        ]
    );
    // every ciphertext holds its entry in the first slot and ten times it in the second
    let inputs = vec![numbers(&[1, 10]), numbers(&[2, 20]), numbers(&[3, 30])];
    let regs = evaluate_registers(&program, &vec![], 7, &inputs, 2, &vec![]).expect("no key is needed");
    assert_eq!(regs.len(), 7);
    assert_eq!(regs[0], numbers(&[1, 10]));
    assert_eq!(regs[3], numbers(&[14, 140]));
    assert_eq!(regs[4], numbers(&[32, 320]));
    assert_eq!(regs[5], numbers(&[50, 500]));

    assert_eq!(plain_matrix_ctxt_vector(&mat, 2), Err(Error::Dimension));
    assert_eq!(plain_matrix_ctxt_vector(&Vec::<Vec<FieldElement>>::new(), 0), Ok(vec![]));
    assert_eq!(
        evaluate_registers(&program, &vec![], 6, &inputs, 2, &vec![]),
        Err(Error::InvalidProgram)
    );
    assert_eq!(
        evaluate_registers(&program, &vec![], 2, &inputs, 2, &vec![]),
        Err(Error::InvalidProgram)
    );
    assert_eq!(
        evaluate_registers(&program, &vec![], 7, &inputs, 1, &vec![]),
        Err(Error::BatchSlots)
    );
    let bad = vec![Instruction::MulScalar {
        dst: 0,
        src: 0,
        scalar: FieldElement::from_raw_limbs([u64::MAX; 4]),
    }];
    assert_eq!(evaluate_registers(&bad, &vec![], 7, &inputs, 2, &vec![]), Err(Error::InvalidProgram));

    let random = (0..5)
        .map(|_| (0..5).map(|_| random_element()).collect::<Vec<_>>())
        .collect::<Vec<_>>();
    let vec = (0..5).map(|_| random_element()).collect::<Vec<_>>();
    let expected = plain_mat_vec(&random, &vec);
    let program = plain_matrix_ctxt_vector(&random, 5).expect("the vector has the dimension");
    let inputs = vec.iter().map(|x| vec![*x]).collect::<Vec<_>>();
    let regs = evaluate_registers(&program, &vec![], 11, &inputs, 1, &vec![]).expect("no key is needed");
    for row in 0..5 {
        assert_eq!(regs[5 + row], vec![expected[row]]);
    }
}

#[test]
fn a_filled_ciphertext_takes_its_steps_from_the_slots() {
    let mat = (0..4).map(|r| numbers(&[r, r + 1, r + 2, r + 3])).collect::<Vec<_>>();
    let plan = Bsgs::fully_packed_bsgs(&mat, 8).expect("the vector fills the ciphertext");
    let by_hand = Bsgs::babystep_giantstep(&mat, 8, 2, 2).expect("valid shape");
    assert_eq!(plan.program, by_hand.program);
    assert_eq!(plan.plaintexts, by_hand.plaintexts);
    assert_eq!(plan.registers, 5);
    assert!(matches!(Bsgs::fully_packed_bsgs(&mat, 9), Err(Error::Packing)));
    assert!(matches!(Bsgs::fully_packed_bsgs(&mat, 16), Err(Error::Dimension)));
    assert!(matches!(Bsgs::fully_packed_bsgs(&mat, 4), Err(Error::Dimension)));
    assert!(matches!(Bsgs::fully_packed_bsgs(&mat, 12), Err(Error::NotPowerOfTwo)));
    assert!(matches!(Bsgs::fully_packed_bsgs(&mat, 0), Err(Error::NotPowerOfTwo)));
}

fn blocks_of(vec: &[FieldElement], size: usize) -> Vec<Vec<FieldElement>> {
    vec.chunks(size).map(|chunk| chunk.to_vec()).collect()
}

fn joined_halves(outputs: &[Vec<FieldElement>], size: usize) -> Vec<FieldElement> {
    outputs.iter().flat_map(|out| out[..size].to_vec()).collect()
}

#[test]
fn a_vector_in_several_ciphertexts_is_multiplied_block_by_block() {
    for (dim, slots) in [(16usize, 8usize), (8, 8), (4, 8), (32, 4), (2, 2), (6, 4)] {
        let size = slots / 2;
        let rows = (0..dim)
            .map(|_| (0..dim).map(|_| random_element()).collect::<Vec<_>>())
            .collect::<Vec<_>>();
        let vec = (0..dim).map(|_| random_element()).collect::<Vec<_>>();
        let expected = plain_mat_vec(&rows, &vec);
        let keys = required_keys(dim, slots).expect("power of two");
        let mut mat = SplittableMatrix::new(rows);
        let inputs = blocks_of(&vec, size);
        let outputs =
            Bsgs::bsgs_multiple_of_packsize(&mut mat, &inputs, slots, &keys).expect("all is there");
        assert_eq!(outputs.len(), dim / size);
        assert!(outputs.iter().all(|out| out.len() == slots));
        assert_eq!(joined_halves(&outputs, size), expected);
        // the window is where it was
        assert_eq!(mat.dimension(), dim);
        assert_eq!(mat.get(0, 0), SplittableMatrix::new(vec![vec![mat.get(0, 0)]]).get(0, 0));
    }
}

#[test]
fn a_long_vector_is_transformed_block_by_block() {
    for (dim, slots) in [(64usize, 16usize), (32, 32), (16, 4)] {
        let root = get_minimal_root(dim).expect("no root found!");
        let ntt_proc = NTTProcessor::new(dim, root);
        let input = (0..dim).map(|_| random_element()).collect::<Vec<_>>();
        let expected_output = ntt_proc.fft(&input);

        assert_eq!(fft_selector(dim, slots), Variant::MultipleOfPacksize);
        let keys = required_keys(dim, slots).expect("power of two");
        let mut mat = FFTMatrix::new(dim, root);
        let inputs = blocks_of(&input, slots / 2);
        let outputs = Bsgs::bsgs_multiple_of_packsize(&mut mat, &inputs, slots, &keys).unwrap();
        assert_eq!(joined_halves(&outputs, slots / 2), expected_output);
    }
}

#[test]
fn the_plans_of_the_blocks_are_those_of_the_blocks_as_matrices() {
    let rows = (0..4u64)
        .map(|r| numbers(&[10 * r, 10 * r + 1, 10 * r + 2, 10 * r + 3]))
        .collect::<Vec<_>>();
    let mut mat = SplittableMatrix::new(rows.clone());
    for (row_block, col_block) in [(0usize, 0usize), (0, 1), (1, 0), (1, 1)] {
        let corner = (0..2)
            .map(|r| rows[2 * row_block + r][2 * col_block..2 * col_block + 2].to_vec())
            .collect::<Vec<_>>();
        let plan = Bsgs::block_plan(&mut mat, row_block, col_block, 4).expect("the block is there");
        let by_hand = Bsgs::fully_packed_bsgs(&corner, 4).expect("valid shape");
        assert_eq!(plan.program, by_hand.program);
        assert_eq!(plan.plaintexts, by_hand.plaintexts);
        assert_eq!(plan.registers, by_hand.registers);
        assert_eq!(plan.slots, 4);
        assert_eq!(mat.dimension(), 4);
    }
    assert_eq!(
        Bsgs::block_plan(&mut mat, 0, 1, 4).map(|plan| plan.plaintexts),
        Ok(vec![numbers(&[2, 13]), numbers(&[3, 12])])
    );
    assert!(matches!(Bsgs::block_plan(&mut mat, 2, 0, 4), Err(Error::Dimension)));
    assert!(matches!(Bsgs::block_plan(&mut mat, 0, 2, 4), Err(Error::Dimension)));
    assert!(matches!(Bsgs::block_plan(&mut mat, 0, 0, 16), Err(Error::Dimension)));
    assert!(matches!(Bsgs::block_plan(&mut mat, 0, 0, 5), Err(Error::Packing)));
    assert!(matches!(Bsgs::block_plan(&mut mat, 0, 0, 6), Err(Error::NotPowerOfTwo)));
    assert!(matches!(Bsgs::block_plan(&mut mat, 0, 0, 1), Err(Error::NotPowerOfTwo)));
    assert!(Bsgs::block_plan(&mut mat, 0, 0, 8).is_ok());
}

#[test]
fn the_product_on_blocks_is_refused_with_its_reason() {
    let rows = (0..4u64)
        .map(|r| numbers(&[10 * r, 10 * r + 1, 10 * r + 2, 10 * r + 3]))
        .collect::<Vec<_>>();
    let mut mat = SplittableMatrix::new(rows);
    let inputs = vec![numbers(&[1, 2]), numbers(&[3, 4])];
    let keys = required_keys(4, 4).expect("power of two");
    assert_eq!(keys, vec![1, 0]);
    let outputs = Bsgs::bsgs_multiple_of_packsize(&mut mat, &inputs, 4, &keys).unwrap();
    assert_eq!(outputs.len(), 2);
    assert_eq!(&outputs[0][..2], &numbers(&[20, 120])[..]);
    assert_eq!(&outputs[1][..2], &numbers(&[220, 320])[..]);
    assert_eq!(
        Bsgs::bsgs_multiple_of_packsize(&mut mat, &inputs, 4, &vec![]),
        Err(Error::MissingKey { step: 1 })
    );
    assert_eq!(
        Bsgs::bsgs_multiple_of_packsize(&mut mat, &inputs, 6, &keys),
        Err(Error::NotPowerOfTwo)
    );
    assert_eq!(
        Bsgs::bsgs_multiple_of_packsize(&mut mat, &inputs, 1, &keys),
        Err(Error::NotPowerOfTwo)
    );
    assert_eq!(Bsgs::bsgs_multiple_of_packsize(&mut mat, &inputs, 5, &keys), Err(Error::Packing));
    assert_eq!(Bsgs::bsgs_multiple_of_packsize(&mut mat, &inputs, 8, &keys), Err(Error::Dimension));
    assert_eq!(
        Bsgs::bsgs_multiple_of_packsize(&mut mat, &inputs[..1].to_vec(), 4, &keys),
        Err(Error::Dimension)
    );
    let uneven = vec![numbers(&[1, 2]), numbers(&[3])];
    assert_eq!(Bsgs::bsgs_multiple_of_packsize(&mut mat, &uneven, 4, &keys), Err(Error::Dimension));
    let mut none = SplittableMatrix::new(vec![]);
    assert_eq!(Bsgs::bsgs_multiple_of_packsize(&mut none, &vec![], 4, &vec![]), Ok(vec![]));
    assert_eq!(mat.dimension(), 4);
}

#[test]
fn a_block_is_a_matrix_of_its_own() {
    let rows = (0..4u64)
        .map(|r| numbers(&[10 * r, 10 * r + 1, 10 * r + 2, 10 * r + 3]))
        .collect::<Vec<_>>();
    let mut mat = SplittableMatrix::new(rows);
    mat.set_row_offset(1);
    mat.set_col_offset(2);
    assert_eq!(mat.dimension(), 2);
    let block = MatrixBlock { matrix: &mat, size: 2 };
    assert_eq!(block.dimension(), 2);
    assert_eq!(block.get(0, 0), FieldElement::from_u64(12));
    assert_eq!(block.get(1, 1), FieldElement::from_u64(23));
    let smaller = MatrixBlock { matrix: &mat, size: 1 };
    assert_eq!(smaller.dimension(), 1);
    assert_eq!(diagonal(&block, 1, 1, false), numbers(&[22, 13]));
}
