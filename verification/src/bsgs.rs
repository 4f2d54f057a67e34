//! The baby-step/giant-step product of a plaintext matrix with a packed
//! ciphertext: the diagonals that are encoded as plaintexts, the rotation
//! steps for which keys are needed, and the sequence of rotations, packed
//! multiplications and additions that the encryption engine is asked for.

use crate::bsgs_laws::{
    lemma_bsgs_computes_product, lemma_indices_distinct, lemma_indices_with_zero,
    lemma_keys_suffice,
};
use crate::engine::{evaluate_plain, first_refusal, Instruction};
use crate::error::Error;
use crate::field::{all_wf, modulus, values, FieldElement};
use crate::matrix::{block_dimension, block_entry, matrix_vector, SquareMatrix};
use crate::ntt::{log2_exact, MAX_LEVELS};
use vstd::arithmetic::div_mod::{
    lemma_fundamental_div_mod, lemma_fundamental_div_mod_converse, lemma_mod_bound,
    lemma_small_mod,
};
use vstd::arithmetic::mul::{lemma_mul_is_commutative, lemma_mul_nonnegative};
use vstd::arithmetic::power2::{
    lemma2_to64, lemma_pow2_adds, lemma_pow2_pos, lemma_pow2_strictly_increases, lemma_pow2_unfold,
    pow2,
};
use vstd::prelude::*;

verus! {

/// The largest dimension: rotation steps are 32-bit signed numbers.
pub const MAX_DIMENSION: usize = 0x7fff_ffff;

/// The ciphertext holds exactly the vector and its wrap-around: the slots
/// are twice the dimension.
pub open spec fn fully_packed(dim: nat, slots: nat) -> bool {
    slots == 2 * dim
}

/// The ciphertext has room to spare: the slots are more than four times
/// the dimension.
pub open spec fn spare_packed(dim: nat, slots: nat) -> bool {
    4 * dim < slots
}

/// A dimension with its two step counts and a slot count for which the
/// product can be evaluated.
pub open spec fn valid_shape(dim: nat, n1: nat, n2: nat, slots: nat) -> bool {
    &&& 1 <= dim <= MAX_DIMENSION
    &&& dim == n1 * n2
    &&& fully_packed(dim, slots) || spare_packed(dim, slots)
}

/// The refusal that a shape gets, if it gets one: a wrong dimension
/// comes before a wrong packing.
pub open spec fn shape_error(dim: nat, n1: nat, n2: nat, slots: nat) -> Option<Error> {
    if !(1 <= dim <= MAX_DIMENSION && dim == n1 * n2) {
        Some(Error::Dimension)
    } else if !(fully_packed(dim, slots) || spare_packed(dim, slots)) {
        Some(Error::Packing)
    } else {
        None
    }
}

/// Checks a shape.
pub fn check_shape(dim: usize, n1: usize, n2: usize, slots: usize) -> (result: Result<(), Error>)
    ensures
        result is Ok <==> valid_shape(dim as nat, n1 as nat, n2 as nat, slots as nat),
        result matches Err(e) ==> shape_error(dim as nat, n1 as nat, n2 as nat, slots as nat)
            == Some(e),
{
    if dim < 1 || dim > MAX_DIMENSION {
        return Err(Error::Dimension);
    }
    if n1 == 0 || n2 == 0 || n1 > dim || n2 > dim {
        proof {
            if n1 != 0 && n2 != 0 {
                assert(n1 * n2 != dim) by (nonlinear_arith)
                    requires
                        n1 >= 1,
                        n2 >= 1,
                        n1 > dim || n2 > dim,
                ;
            } else {
                assert(n1 * n2 == 0) by (nonlinear_arith)
                    requires
                        n1 == 0 || n2 == 0,
                ;
            }
        }
        return Err(Error::Dimension);
    }
    assert(n1 * n2 <= 0x7fff_ffff * 0x7fff_ffff) by (nonlinear_arith)
        requires
            n1 <= 0x7fff_ffff,
            n2 <= 0x7fff_ffff,
    ;
    let product: u64 = (n1 as u64) * (n2 as u64);
    if product != dim as u64 {
        return Err(Error::Dimension);
    }
    let packed: bool = slots >= dim && slots - dim == dim;
    let spare: bool = slots / 4 > dim || (slots / 4 == dim && slots % 4 != 0);
    if packed || spare {
        Ok(())
    } else {
        Err(Error::Packing)
    }
}

/// Two to the power `e`.
fn power_of_two(e: u32) -> (p: usize)
    requires
        e <= MAX_LEVELS,
    ensures
        p == pow2(e as nat),
        p <= 0x1000_0000,
{
    let mut p: usize = 1;
    proof {
        lemma2_to64();
    }
    for i in 0..e
        invariant
            e <= MAX_LEVELS,
            p == pow2(i as nat),
            p <= 0x1000_0000,
    {
        proof {
            lemma_pow2_unfold((i + 1) as nat);
            lemma_pow2_strictly_increases(i as nat, 28);
            lemma2_to64();
            if i + 1 < 28 {
                lemma_pow2_strictly_increases((i + 1) as nat, 28);
            }
        }
        p = p * 2;
    }
    p
}

/// The two step counts for a dimension `2^levels`: the giant steps are
/// two to half the levels, rounded down, and the baby steps the rest.
pub open spec fn split_spec(levels: nat) -> (nat, nat) {
    (pow2((levels - levels / 2) as nat), pow2(levels / 2))
}

/// Splits a power-of-two dimension into the number of baby steps and the
/// number of giant steps: two powers of two whose product is the
/// dimension, the second the largest that is not above its square root.
pub fn split(dim: usize) -> (result: Result<(usize, usize), Error>)
    ensures
        match result {
            Ok((n1, n2)) => exists|levels: nat|
                levels <= MAX_LEVELS && dim == #[trigger] pow2(levels) && (n1 as nat, n2 as nat)
                    == split_spec(levels) && n1 * n2 == dim && n2 <= n1 <= 2 * n2,
            Err(e) => e == Error::NotPowerOfTwo && forall|levels: nat|
                levels <= MAX_LEVELS ==> dim != #[trigger] pow2(levels),
        },
{
    match log2_exact(dim) {
        None => Err(Error::NotPowerOfTwo),
        Some(levels) => {
            let low: u32 = levels >> 1;
            assert(levels >> 1u32 == levels / 2) by (bit_vector);
            let n2: usize = power_of_two(low);
            proof {
                lemma_pow2_pos(low as nat);
            }
            let n1: usize = dim / n2;
            proof {
                let l: nat = levels as nat;
                let high: nat = (l - l / 2) as nat;
                lemma_pow2_adds(high, l / 2);
                lemma_pow2_pos(l / 2);
                lemma_pow2_pos(high);
                lemma_mul_is_commutative(pow2(high) as int, pow2(l / 2) as int);
                lemma_fundamental_div_mod_converse(dim as int, n2 as int, pow2(high) as int, 0);
                assert(n1 == pow2(high));
                if high > l / 2 {
                    lemma_pow2_strictly_increases(l / 2, high);
                    lemma_pow2_unfold(high);
                }
            }
            Ok((n1, n2))
        },
    }
}

/// The rotation steps of a product with `n1` baby steps and `n2` giant
/// steps: one if there is more than one baby step, the multiples of `n1`
/// for the giant steps, and for a ciphertext with room to spare the
/// dimension backwards.
pub open spec fn indices_spec(n1: nat, n2: nat, slots: nat) -> Seq<int> {
    let baby: Seq<int> = if n1 > 1 {
        seq![1int]
    } else {
        Seq::<int>::empty()
    };
    let giant: Seq<int> = Seq::new((n2 - 1) as nat, |k: int| (k + 1) * n1);
    let back: Seq<int> = if slots != 2 * (n1 * n2) {
        seq![-((n1 * n2) as int)]
    } else {
        Seq::<int>::empty()
    };
    baby + giant + back
}

/// The numbers of a list of steps.
pub open spec fn steps_of(v: Seq<i32>) -> Seq<int> {
    Seq::new(v.len(), |i: int| v[i] as int)
}

/// The register of the ciphertext.
pub const REG_CTXT: usize = 0;

/// The register for a value that is used at once.
pub const REG_TMP: usize = 1;

/// The register of the sum over the baby steps.
pub const REG_INNER: usize = 2;

/// The register of the first rotated copy; the others follow.
pub const REG_ROT: usize = 3;

/// The plaintext of row `i`. Its generalised diagonal holds at place `j`
/// the entry of row `j` in column `(i + j) mod dim`. With `shift` the
/// largest multiple of `n1` that is not above `i`, the diagonal is
/// rotated to the right by `shift`; where the ciphertext has room to
/// spare, the entries that the rotation would bring round to the front
/// stand behind the end instead, and the front is zero.
pub open spec fn diagonal_spec<T: SquareMatrix>(
    matrix: &T,
    i: int,
    n1: int,
    spare: bool,
) -> Seq<FieldElement> {
    let dim: int = block_dimension(matrix) as int;
    let shift: int = (i / n1) * n1;
    if spare {
        Seq::new(
            (dim + shift) as nat,
            |t: int|
                if t < shift {
                    FieldElement::zero_spec()
                } else {
                    block_entry(matrix, t - shift, (i + t - shift) % dim)
                },
        )
    } else {
        Seq::new(
            dim as nat,
            |t: int| block_entry(matrix, (t + dim - shift) % dim, (i + (t + dim - shift) % dim) % dim),
        )
    }
}

/// Moves the first `mid` entries behind the others.
fn rotate_left(v: &mut Vec<FieldElement>, mid: usize)
    requires
        mid <= old(v)@.len(),
    ensures
        final(v)@ == old(v)@.subrange(mid as int, old(v)@.len() as int) + old(v)@.subrange(
            0,
            mid as int,
        ),
{
    let len: usize = v.len();
    let mut rotated: Vec<FieldElement> = Vec::with_capacity(len);
    for i in mid..len
        invariant
            mid <= len,
            len == v@.len(),
            rotated@ == v@.subrange(mid as int, i as int),
    {
        rotated.push(v[i]);
        assert(rotated@ =~= v@.subrange(mid as int, i + 1));
    }
    for i in 0..mid
        invariant
            mid <= len,
            len == v@.len(),
            rotated@ == v@.subrange(mid as int, len as int) + v@.subrange(0, i as int),
    {
        rotated.push(v[i]);
        assert(rotated@ =~= v@.subrange(mid as int, len as int) + v@.subrange(0, i + 1));
    }
    *v = rotated;
}

/// The plaintext of row `i` of the matrix, as a list of field elements
/// that is yet to be encoded.
pub fn diagonal<T: SquareMatrix>(matrix: &T, i: usize, n1: usize, spare: bool) -> (diag: Vec<
    FieldElement,
>)
    requires
        matrix.wf(),
        block_dimension(matrix) <= MAX_DIMENSION,
        i < block_dimension(matrix),
        n1 >= 1,
    ensures
        diag@ == diagonal_spec(matrix, i as int, n1 as int, spare),
        all_wf(diag@),
{
    let dim: usize = matrix.dimension();
    let k: usize = i / n1;
    proof {
        lemma_fundamental_div_mod(i as int, n1 as int);
        lemma_mod_bound(i as int, n1 as int);
        lemma_mul_is_commutative(k as int, n1 as int);
        lemma_mul_nonnegative(k as int, n1 as int);
        matrix.lemma_wf();
    }
    let shift: usize = k * n1;
    proof {
        assert(k == 0 ==> shift == 0) by (nonlinear_arith)
            requires
                shift == k * n1,
        ;
        assert(k != 0 ==> shift >= 1) by (nonlinear_arith)
            requires
                shift == k * n1,
                n1 >= 1,
                k >= 0,
        ;
    }
    let mut diag: Vec<FieldElement> = Vec::with_capacity(dim + shift);
    for j in 0..dim
        invariant
            matrix.wf(),
            dim == block_dimension(matrix),
            dim <= MAX_DIMENSION,
            i < dim,
            matrix.row_offset() <= matrix.underlying_size(),
            matrix.col_offset() <= matrix.underlying_size(),
            diag@.len() == j,
            forall|t: int|
                0 <= t < j ==> (#[trigger] diag@[t]).wf() && diag@[t] == block_entry(
                    matrix,
                    t,
                    (i + t) % (dim as int),
                ),
    {
        proof {
            lemma_mod_bound(i + j, dim as int);
        }
        diag.push(matrix.get(j, (i + j) % dim));
    }
    let ghost plain: Seq<FieldElement> = diag@;
    if k != 0 {
        rotate_left(&mut diag, dim - shift);
    }
    proof {
        assert forall|t: int| 0 <= t < dim implies #[trigger] diag@[t] == plain[(t + dim - shift)
            % (dim as int)] by {
            if t < shift {
                lemma_small_mod((t + dim - shift) as nat, dim as nat);
                assert(k != 0);
                assert(diag@[t] == plain.subrange(dim - shift, dim as int)[t]);
            } else {
                lemma_fundamental_div_mod_converse(t + dim - shift, dim as int, 1, t - shift);
                if k != 0 {
                    assert(diag@[t] == plain.subrange(0, dim - shift)[t - shift]);
                } else {
                    assert(shift == 0);
                }
            }
        }
    }
    let ghost turned: Seq<FieldElement> = diag@;
    if spare {
        for index in 0..shift
            invariant
                shift <= i,
                i < dim,
                dim <= MAX_DIMENSION,
                turned.len() == dim,
                diag@.len() == dim + index,
                forall|t: int| 0 <= t < index ==> #[trigger] diag@[t] == FieldElement::zero_spec(),
                forall|t: int| index <= t < dim ==> #[trigger] diag@[t] == turned[t],
                forall|t: int| dim <= t < dim + index ==> #[trigger] diag@[t] == turned[t - dim],
        {
            let moved: FieldElement = diag[index];
            diag.push(moved);
            diag[index] = FieldElement::zero();
        }
    }
    proof {
        let target = diagonal_spec(matrix, i as int, n1 as int, spare);
        assert(diag@.len() == target.len());
        assert forall|t: int| 0 <= t < diag@.len() implies diag@[t] == target[t] by {
            if spare {
                if t < shift {
                } else if t < dim {
                    assert(diag@[t] == turned[t]);
                    lemma_fundamental_div_mod_converse(t + dim - shift, dim as int, 1, t - shift);
                } else {
                    assert(diag@[t] == turned[t - dim]);
                    lemma_small_mod((t - shift) as nat, dim as nat);
                }
            } else {
                assert(diag@[t] == turned[t]);
            }
        }
        assert(diag@ =~= target);
        assert forall|t: int| 0 <= t < diag@.len() implies (#[trigger] diag@[t]).wf() by {
            if spare && t < shift {
            } else if spare && t >= dim {
                assert(diag@[t] == turned[t - dim]);
                assert(turned[t - dim] == plain[(t - dim + dim - shift) % (dim as int)]);
                lemma_mod_bound(t - dim + dim - shift, dim as int);
            } else {
                assert(diag@[t] == turned[t]);
                assert(turned[t] == plain[(t + dim - shift) % (dim as int)]);
                lemma_mod_bound(t + dim - shift, dim as int);
            }
        }
    }
    diag
}

/// The steps for which rotation keys are needed, each once.
pub fn bsgs_indices(n1: usize, n2: usize, slots: usize) -> (indices: Vec<i32>)
    requires
        1 <= n1 * n2 <= MAX_DIMENSION,
    ensures
        steps_of(indices@) == indices_spec(n1 as nat, n2 as nat, slots as nat),
        steps_of(indices@).no_duplicates(),
{
    proof {
        assert(n1 >= 1 && n2 >= 1 && n1 <= n1 * n2 && n2 <= n1 * n2) by (nonlinear_arith)
            requires
                1 <= n1 * n2,
        ;
    }
    let dim: usize = n1 * n2;
    let mut indices: Vec<i32> = Vec::new();
    if n1 > 1 {
        indices.push(1);
    }
    let ghost baby: Seq<int> = steps_of(indices@);
    for k in 1..n2
        invariant
            1 <= n1,
            dim == n1 * n2,
            dim <= MAX_DIMENSION,
            steps_of(indices@) == baby + Seq::new((k - 1) as nat, |t: int| (t + 1) * n1),
    {
        proof {
            assert(k * n1 < n1 * n2) by (nonlinear_arith)
                requires
                    k < n2,
                    n1 >= 1,
            ;
        }
        let ghost before: Seq<int> = steps_of(indices@);
        proof {
            let earlier = Seq::new((k - 1) as nat, |t: int| (t + 1) * n1);
            assert(before == baby + earlier);
            assert(earlier.len() == k - 1);
            assert(before.len() == baby.len() + earlier.len());
            assert(indices@.len() == before.len());
        }
        indices.push((k * n1) as i32);
        proof {
            let after = baby + Seq::new(k as nat, |t: int| (t + 1) * n1);
            assert(steps_of(indices@).len() == after.len());
            assert forall|t: int| 0 <= t < after.len() implies steps_of(indices@)[t] == after[t] by {
                if t < before.len() {
                    assert(steps_of(indices@)[t] == before[t]);
                } else {
                    assert((k - 1 + 1) * n1 == k * n1);
                }
            }
            assert(steps_of(indices@) =~= after);
        }
    }
    let ghost giant: Seq<int> = steps_of(indices@);
    if !(slots >= dim && slots - dim == dim) {
        indices.push(-(dim as i32));
        assert(steps_of(indices@) =~= giant + seq![-(dim as int)]);
    } else {
        assert(giant =~= giant + Seq::<int>::empty());
    }
    proof {
        let listed: Seq<int> = steps_of(indices@);
        let expected: Seq<int> = indices_spec(n1 as nat, n2 as nat, slots as nat);
        assert(listed =~= expected);
        lemma_indices_distinct(n1 as nat, n2 as nat, slots as nat);
        assert(listed.no_duplicates());
    }
    indices
}

/// The instructions for a ciphertext with room to spare, before the
/// rotated copies are made: the ciphertext, rotated backwards by the
/// dimension, is added to itself.
pub open spec fn prelude_program(dim: nat, spare: bool) -> Seq<Instruction> {
    if spare {
        seq![
            Instruction::Copy { dst: REG_TMP, src: REG_CTXT },
            Instruction::Rotate { reg: REG_TMP, step: (-(dim as int)) as i32 },
            Instruction::Add { dst: REG_CTXT, src: REG_TMP },
        ]
    } else {
        Seq::<Instruction>::empty()
    }
}

/// The instructions up to the rotated copy `j`: each copy is the one
/// before it, rotated by one.
pub open spec fn baby_program(dim: nat, spare: bool, j: nat) -> Seq<Instruction>
    decreases j,
{
    if j == 0 {
        prelude_program(dim, spare).push(Instruction::Copy { dst: REG_ROT, src: REG_CTXT })
    } else {
        baby_program(dim, spare, (j - 1) as nat).push(
            Instruction::Copy { dst: (REG_ROT + j) as usize, src: (REG_ROT + j - 1) as usize },
        ).push(Instruction::Rotate { reg: (REG_ROT + j) as usize, step: 1 })
    }
}

/// The instructions up to the term `j` of the sum of giant step `k`.
pub open spec fn inner_program(n1: nat, dim: nat, spare: bool, k: nat, j: nat) -> Seq<Instruction>
    decreases k, j,
{
    if j == 0 {
        let before: Seq<Instruction> = if k == 0 {
            baby_program(dim, spare, (n1 - 1) as nat)
        } else {
            giant_program(n1, dim, spare, (k - 1) as nat)
        };
        before.push(
            Instruction::MulPlain { dst: REG_INNER, src: REG_ROT, plaintext: (k * n1) as usize },
        )
    } else {
        inner_program(n1, dim, spare, k, (j - 1) as nat).push(
            Instruction::MulPlain {
                dst: REG_TMP,
                src: (REG_ROT + j) as usize,
                plaintext: (k * n1 + j) as usize,
            },
        ).push(Instruction::Add { dst: REG_INNER, src: REG_TMP })
    }
}

/// The instructions up to the end of giant step `k`: the sum of the
/// step is rotated by `k n1` and added to the result; the sum of step 0
/// is the result's first value.
pub open spec fn giant_program(n1: nat, dim: nat, spare: bool, k: nat) -> Seq<Instruction>
    decreases k, n1,
{
    if n1 == 0 {
        Seq::<Instruction>::empty()
    } else if k == 0 {
        inner_program(n1, dim, spare, 0, (n1 - 1) as nat).push(
            Instruction::Move { dst: REG_CTXT, src: REG_INNER },
        )
    } else {
        inner_program(n1, dim, spare, k, (n1 - 1) as nat).push(
            Instruction::Rotate { reg: REG_INNER, step: (k * n1) as i32 },
        ).push(Instruction::Add { dst: REG_CTXT, src: REG_INNER })
    }
}

/// The whole sequence of instructions of a product.
pub open spec fn bsgs_program(n1: nat, n2: nat, slots: nat) -> Seq<Instruction> {
    giant_program(n1, n1 * n2, slots != 2 * (n1 * n2), (n2 - 1) as nat)
}

/// The sequence of instructions of a product with `n1` baby steps and
/// `n2` giant steps on a ciphertext of `slots` slots.
pub fn build_program(n1: usize, n2: usize, slots: usize) -> (program: Vec<Instruction>)
    requires
        valid_shape((n1 * n2) as nat, n1 as nat, n2 as nat, slots as nat),
    ensures
        program@ == bsgs_program(n1 as nat, n2 as nat, slots as nat),
{
    proof {
        assert(n1 >= 1 && n2 >= 1 && n1 <= n1 * n2 && n2 <= n1 * n2) by (nonlinear_arith)
            requires
                1 <= n1 * n2,
        ;
    }
    let dim: usize = n1 * n2;
    let spare: bool = !(slots >= dim && slots - dim == dim);
    let mut program: Vec<Instruction> = Vec::new();
    if spare {
        program.push(Instruction::Copy { dst: REG_TMP, src: REG_CTXT });
        program.push(Instruction::Rotate { reg: REG_TMP, step: -(dim as i32) });
        program.push(Instruction::Add { dst: REG_CTXT, src: REG_TMP });
    }
    assert(program@ =~= prelude_program(dim as nat, spare));
    program.push(Instruction::Copy { dst: REG_ROT, src: REG_CTXT });
    for j in 1..n1
        invariant
            1 <= n1,
            n1 <= dim,
            dim <= MAX_DIMENSION,
            program@ == baby_program(dim as nat, spare, (j - 1) as nat),
    {
        program.push(Instruction::Copy { dst: REG_ROT + j, src: REG_ROT + j - 1 });
        program.push(Instruction::Rotate { reg: REG_ROT + j, step: 1 });
    }
    for k in 0..n2
        invariant
            1 <= n1,
            1 <= n2,
            dim == n1 * n2,
            dim <= MAX_DIMENSION,
            program@ == (if k == 0 {
                baby_program(dim as nat, spare, (n1 - 1) as nat)
            } else {
                giant_program(n1 as nat, dim as nat, spare, (k - 1) as nat)
            }),
    {
        proof {
            assert(k * n1 + n1 <= n1 * n2) by (nonlinear_arith)
                requires
                    k < n2,
                    n1 >= 1,
            ;
            lemma_mul_nonnegative(k as int, n1 as int);
        }
        program.push(Instruction::MulPlain { dst: REG_INNER, src: REG_ROT, plaintext: k * n1 });
        for j in 1..n1
            invariant
                1 <= n1,
                k < n2,
                k * n1 + n1 <= dim,
                dim <= MAX_DIMENSION,
                program@ == inner_program(n1 as nat, dim as nat, spare, k as nat, (j - 1) as nat),
        {
            program.push(
                Instruction::MulPlain { dst: REG_TMP, src: REG_ROT + j, plaintext: k * n1 + j },
            );
            program.push(Instruction::Add { dst: REG_INNER, src: REG_TMP });
        }
        if k == 0 {
            program.push(Instruction::Move { dst: REG_CTXT, src: REG_INNER });
        } else {
            program.push(Instruction::Rotate { reg: REG_INNER, step: (k * n1) as i32 });
            program.push(Instruction::Add { dst: REG_CTXT, src: REG_INNER });
        }
    }
    program
}

/// What the encryption engine is to be asked for: the plaintexts to
/// encode, by their numbers, the number of ciphertext registers, and the
/// instructions.
pub struct BsgsPlan {
    pub program: Vec<Instruction>,
    pub plaintexts: Vec<Vec<FieldElement>>,
    pub registers: usize,
    pub slots: usize,
}

/// The plaintexts of all rows of the matrix.
pub fn diagonals<T: SquareMatrix>(matrix: &T, n1: usize, spare: bool) -> (plaintexts: Vec<
    Vec<FieldElement>,
>)
    requires
        matrix.wf(),
        block_dimension(matrix) <= MAX_DIMENSION,
        n1 >= 1,
    ensures
        plaintexts@.len() == block_dimension(matrix),
        forall|i: int|
            0 <= i < plaintexts@.len() ==> (#[trigger] plaintexts@[i])@ == diagonal_spec(
                matrix,
                i,
                n1 as int,
                spare,
            ) && all_wf(plaintexts@[i]@),
{
    let dim: usize = matrix.dimension();
    let mut plaintexts: Vec<Vec<FieldElement>> = Vec::with_capacity(dim);
    for i in 0..dim
        invariant
            matrix.wf(),
            dim == block_dimension(matrix),
            dim <= MAX_DIMENSION,
            n1 >= 1,
            plaintexts@.len() == i,
            forall|t: int|
                0 <= t < i ==> (#[trigger] plaintexts@[t])@ == diagonal_spec(
                    matrix,
                    t,
                    n1 as int,
                    spare,
                ) && all_wf(plaintexts@[t]@),
    {
        plaintexts.push(diagonal(matrix, i, n1, spare));
    }
    plaintexts
}

/// The baby-step/giant-step evaluation of a matrix on a packed
/// ciphertext.
pub struct Bsgs;

impl Bsgs {
    /// The steps for which rotation keys are needed before a product with
    /// `n1` baby steps and `n2` giant steps is evaluated on a ciphertext
    /// of `slots` slots.
    pub fn bsgs_indices(n1: usize, n2: usize, slots: usize) -> (indices: Vec<i32>)
        requires
            1 <= n1 * n2 <= MAX_DIMENSION,
        ensures
            steps_of(indices@) == indices_spec(n1 as nat, n2 as nat, slots as nat),
            steps_of(indices@).no_duplicates(),
    {
        bsgs_indices(n1, n2, slots)
    }

    /// The plan by which the product of the matrix with the vector in a
    /// ciphertext of `slots` slots is evaluated in `n1` baby steps and
    /// `n2` giant steps. The shape is refused if the dimension is not
    /// `n1 n2`, or if the slots are neither twice the dimension nor more
    /// than four times the dimension.
    pub fn babystep_giantstep<T: SquareMatrix>(
        matrix: &T,
        slots: usize,
        n1: usize,
        n2: usize,
    ) -> (result: Result<BsgsPlan, Error>)
        requires
            matrix.wf(),
        ensures
            match result {
                Ok(plan) => {
                    &&& valid_shape(block_dimension(matrix), n1 as nat, n2 as nat, slots as nat)
                    &&& plan.program@ == bsgs_program(n1 as nat, n2 as nat, slots as nat)
                    &&& plan.plaintexts@.len() == block_dimension(matrix)
                    &&& forall|i: int|
                        0 <= i < plan.plaintexts@.len() ==> (#[trigger] plan.plaintexts@[i])@
                            == diagonal_spec(
                            matrix,
                            i,
                            n1 as int,
                            !fully_packed(block_dimension(matrix), slots as nat),
                        ) && all_wf(plan.plaintexts@[i]@)
                    &&& plan.registers == REG_ROT + n1
                    &&& plan.slots == slots
                },
                Err(e) => shape_error(block_dimension(matrix), n1 as nat, n2 as nat, slots as nat)
                    == Some(e),
            },
    {
        let dim: usize = matrix.dimension();
        match check_shape(dim, n1, n2, slots) {
            Err(e) => Err(e),
            Ok(()) => {
                proof {
                    assert(n1 >= 1 && n1 <= n1 * n2) by (nonlinear_arith)
                        requires
                            1 <= n1 * n2,
                            n1 >= 0,
                            n2 >= 0,
                    ;
                }
                let spare: bool = !(slots >= dim && slots - dim == dim);
                Ok(
                    BsgsPlan {
                        program: build_program(n1, n2, slots),
                        plaintexts: diagonals(matrix, n1, spare),
                        registers: REG_ROT + n1,
                        slots,
                    },
                )
            },
        }
    }
}

/// Why the product is not evaluated, if it is not: the shape is refused,
/// the vector does not have the matrix's dimension, or a rotation key is
/// missing.
pub open spec fn product_error(
    dim: nat,
    n1: nat,
    n2: nat,
    slots: nat,
    input_len: nat,
    keys: Seq<i32>,
) -> Option<Error> {
    if shape_error(dim, n1, n2, slots) is Some {
        shape_error(dim, n1, n2, slots)
    } else if input_len != dim {
        Some(Error::Dimension)
    } else {
        first_refusal(bsgs_program(n1, n2, slots), (REG_ROT + n1) as nat, dim, keys)
    }
}

impl Bsgs {
    /// Evaluates the product of the matrix with a vector in the plain
    /// model of a ciphertext of `slots` slots, in `n1` baby steps and `n2`
    /// giant steps, with rotation keys for the steps in `keys`. The slots
    /// of the result come back; the first `dim` of them hold the product,
    /// the others are of no use. The product is evaluated if and only if
    /// the shape is valid, the vector has the matrix's dimension, and
    /// there is a key for every step that `bsgs_indices` lists.
    pub fn evaluate_plain<T: SquareMatrix>(
        matrix: &T,
        input: &Vec<FieldElement>,
        slots: usize,
        n1: usize,
        n2: usize,
        keys: &Vec<i32>,
    ) -> (result: Result<Vec<FieldElement>, Error>)
        requires
            matrix.wf(),
            all_wf(input@),
        ensures
            result is Ok <==> valid_shape(
                block_dimension(matrix),
                n1 as nat,
                n2 as nat,
                slots as nat,
            ) && input@.len() == block_dimension(matrix) && (forall|step: i32|
                indices_spec(n1 as nat, n2 as nat, slots as nat).contains(step as int)
                    ==> #[trigger] keys@.contains(step)),
            match result {
                Ok(output) => {
                    &&& output@.len() == slots
                    &&& all_wf(output@)
                    &&& forall|i: int|
                        0 <= i < block_dimension(matrix) ==> (#[trigger] output@[i]).value()
                            == matrix_vector(matrix, values(input@), modulus())[i]
                },
                Err(e) => product_error(
                    block_dimension(matrix),
                    n1 as nat,
                    n2 as nat,
                    slots as nat,
                    input@.len(),
                    keys@,
                ) == Some(e),
            },
    {
        let dim: usize = matrix.dimension();
        let plan: BsgsPlan = match Bsgs::babystep_giantstep(matrix, slots, n1, n2) {
            Err(e) => { return Err(e); },
            Ok(plan) => plan,
        };
        if input.len() != dim {
            return Err(Error::Dimension);
        }
        proof {
            let spare: bool = !fully_packed(dim as nat, slots as nat);
            assert(n1 >= 1 && n2 >= 1) by (nonlinear_arith)
                requires
                    1 <= n1 * n2,
                    n1 >= 0,
                    n2 >= 0,
            ;
            assert forall|p: int| 0 <= p < plan.plaintexts@.len() implies (
            #[trigger] plan.plaintexts@[p])@.len() <= slots by {
                let shift: int = (p / (n1 as int)) * n1;
                lemma_fundamental_div_mod(p, n1 as int);
                lemma_mod_bound(p, n1 as int);
                lemma_mul_is_commutative(p / (n1 as int), n1 as int);
                assert(shift <= p);
                lemma_mul_nonnegative(p / (n1 as int), n1 as int);
                assert(plan.plaintexts@[p]@ == diagonal_spec(matrix, p, n1 as int, spare));
            }
            lemma_keys_suffice(n1 as nat, n2 as nat, slots as nat, keys@);
        }
        let result = evaluate_plain(
            &plan.program,
            &plan.plaintexts,
            plan.registers,
            input,
            slots,
            keys,
        );
        proof {
            if result is Ok {
                let output = result->Ok_0;
                assert forall|i: int| 0 <= i < dim implies (#[trigger] output@[i]).value()
                    == matrix_vector(matrix, values(input@), modulus())[i] by {
                    lemma_bsgs_computes_product(
                        matrix,
                        plan.plaintexts@,
                        values(input@),
                        n1 as nat,
                        n2 as nat,
                        slots as nat,
                        i,
                    );
                    assert(values(output@)[i] == output@[i].value());
                }
            }
        }
        result
    }
}

/// How a product with a matrix of dimension `dim` is laid out on
/// ciphertexts of `slots` slots.
#[derive(Clone, Copy, Debug, PartialEq, Eq, Structural)]
pub enum Variant {
    /// The vector is shorter than half a ciphertext: one ciphertext with
    /// room to spare, evaluated by `Bsgs::babystep_giantstep` with the
    /// step counts of the dimension.
    Packed,
    /// The vector fills a ciphertext, which holds half as many values as
    /// it has slots: one ciphertext, evaluated by
    /// `Bsgs::fully_packed_bsgs`.
    FullyPacked,
    /// The vector is longer: several filled ciphertexts, each with one
    /// block of the vector, evaluated block by block by
    /// `Bsgs::bsgs_multiple_of_packsize`.
    MultipleOfPacksize,
}

/// The layout for a matrix of dimension `dim`.
pub fn fft_selector(dim: usize, slots: usize) -> (variant: Variant)
    ensures
        2 * dim < slots ==> variant == Variant::Packed,
        2 * dim == slots ==> variant == Variant::FullyPacked,
        2 * dim > slots ==> variant == Variant::MultipleOfPacksize,
{
    if dim <= slots && dim < slots - dim {
        Variant::Packed
    } else if dim <= slots && dim == slots - dim {
        Variant::FullyPacked
    } else {
        Variant::MultipleOfPacksize
    }
}

/// The dimension of the products that a layout evaluates: the matrix's
/// where one ciphertext has room to spare, and half of the slots where the
/// ciphertexts are filled.
pub open spec fn block_size(dim: nat, slots: nat) -> nat {
    if 2 * dim < slots {
        dim
    } else {
        slots / 2
    }
}

/// The steps for which rotation keys are generated before a product with
/// a matrix of dimension `dim` is evaluated in its layout: the steps that
/// `bsgs_indices` lists for the step counts into which `split` divides
/// the dimension of the products, and step zero besides where the
/// ciphertexts are filled. Every step is listed once. The dimension of
/// the products has to be a power of two.
pub fn required_keys(dim: usize, slots: usize) -> (result: Result<Vec<i32>, Error>)
    ensures
        result matches Ok(keys) ==> steps_of(keys@).no_duplicates(),
        match result {
            Ok(keys) => exists|levels: nat|
                levels <= MAX_LEVELS && block_size(dim as nat, slots as nat) == #[trigger] pow2(
                    levels,
                ) && steps_of(keys@) == indices_spec(
                    split_spec(levels).0,
                    split_spec(levels).1,
                    slots as nat,
                ) + (if 2 * dim < slots {
                    Seq::<int>::empty()
                } else {
                    seq![0int]
                }),
            Err(e) => e == Error::NotPowerOfTwo && forall|levels: nat|
                levels <= MAX_LEVELS ==> block_size(dim as nat, slots as nat) != #[trigger] pow2(
                    levels,
                ),
        },
{
    let spare: bool = dim <= slots && dim < slots - dim;
    let block: usize = if spare {
        dim
    } else {
        slots / 2
    };
    match split(block) {
        Err(e) => Err(e),
        Ok((n1, n2)) => {
            proof {
                lemma2_to64();
                let levels: nat = choose|levels: nat|
                    levels <= MAX_LEVELS && block == #[trigger] pow2(levels) && (
                    n1 as nat,
                    n2 as nat,
                ) == split_spec(levels) && n1 * n2 == block && n2 <= n1 <= 2 * n2;
                lemma_pow2_pos(levels);
                if levels < 28 {
                    lemma_pow2_strictly_increases(levels, 28);
                }
            }
            let mut keys: Vec<i32> = bsgs_indices(n1, n2, slots);
            let ghost steps: Seq<int> = steps_of(keys@);
            if !spare {
                keys.push(0);
                assert(steps_of(keys@) =~= steps + seq![0int]);
                proof {
                    lemma_indices_with_zero(n1 as nat, n2 as nat, slots as nat);
                }
            } else {
                assert(steps =~= steps + Seq::<int>::empty());
            }
            Ok(keys)
        },
    }
}

/// Why a ciphertext that the vector fills is not multiplied, if it is
/// not: half the slots are no power of two, the dimension is not half
/// the slots, or the slots are not twice the dimension.
pub open spec fn fully_packed_error(dim: nat, slots: nat) -> Option<Error> {
    if forall|levels: nat| levels <= MAX_LEVELS ==> slots / 2 != #[trigger] pow2(levels) {
        Some(Error::NotPowerOfTwo)
    } else if dim != slots / 2 {
        Some(Error::Dimension)
    } else if slots != 2 * dim {
        Some(Error::Packing)
    } else {
        None
    }
}

impl Bsgs {
    /// The plan for a ciphertext that the vector fills: the dimension is
    /// half the slots, and the step counts are those into which `split`
    /// divides it.
    pub fn fully_packed_bsgs<T: SquareMatrix>(matrix: &T, slots: usize) -> (result: Result<
        BsgsPlan,
        Error,
    >)
        requires
            matrix.wf(),
        ensures
            match result {
                Ok(plan) => exists|levels: nat|
                    {
                        &&& levels <= MAX_LEVELS
                        &&& block_dimension(matrix) == #[trigger] pow2(levels)
                        &&& slots == 2 * block_dimension(matrix)
                        &&& valid_shape(
                            block_dimension(matrix),
                            split_spec(levels).0,
                            split_spec(levels).1,
                            slots as nat,
                        )
                        &&& plan.program@ == bsgs_program(
                            split_spec(levels).0,
                            split_spec(levels).1,
                            slots as nat,
                        )
                        &&& plan.plaintexts@.len() == block_dimension(matrix)
                        &&& forall|i: int|
                            0 <= i < plan.plaintexts@.len() ==> (#[trigger] plan.plaintexts@[i])@
                                == diagonal_spec(matrix, i, split_spec(levels).0 as int, false)
                                && all_wf(plan.plaintexts@[i]@)
                        &&& plan.registers == REG_ROT + split_spec(levels).0
                        &&& plan.slots == slots
                    },
                Err(e) => fully_packed_error(block_dimension(matrix), slots as nat) == Some(e),
            },
    {
        match split(slots / 2) {
            Err(e) => Err(e),
            Ok((n1, n2)) => {
                let ghost levels: nat = choose|levels: nat|
                    levels <= MAX_LEVELS && slots / 2 == #[trigger] pow2(levels) && (
                    n1 as nat,
                    n2 as nat,
                ) == split_spec(levels) && n1 * n2 == slots / 2 && n2 <= n1 <= 2 * n2;
                match Bsgs::babystep_giantstep(matrix, slots, n1, n2) {
                    Err(e) => {
                        proof {
                            lemma_pow2_pos(levels);
                            if levels < 28 {
                                lemma_pow2_strictly_increases(levels, 28);
                            }
                            lemma2_to64();
                        }
                        Err(e)
                    },
                    Ok(plan) => {
                        proof {
                            let dim: nat = block_dimension(matrix);
                            assert(dim == slots / 2);
                            if 4 * dim < slots {
                                assert(false);
                            }
                        }
                        Ok(plan)
                    },
                }
            },
        }
    }
}

} // verus!
