//! The product of a matrix with a vector that is longer than one
//! ciphertext holds: the vector is cut into blocks of half the slots, each
//! block in a filled ciphertext of its own, and the matrix into square
//! blocks of the same side. The window of the matrix is moved from block to
//! block; every block is multiplied with its ciphertext by the
//! baby-step/giant-step product, and the products of a row of blocks are
//! added.

use crate::bsgs::{
    bsgs_program, diagonal_spec, split, split_spec, valid_shape, Bsgs, BsgsPlan, REG_ROT,
};
use crate::bsgs_laws::{block_sums, lemma_keys_suffice, lemma_sum_blocks, shifted};
use crate::engine::{first_refusal, lists_wf};
use crate::error::Error;
use crate::field::{all_wf, modulus, values, FieldElement};
use crate::matrix::{
    block_dimension, block_entry, matrix_vector, product_term, MatrixBlock, OffsetMatrix,
    SquareMatrix,
};
use crate::modmath::{at, lemma_sum_ext, sum};
use crate::ntt::MAX_LEVELS;
use crate::slots::add_slots;
use vstd::arithmetic::div_mod::{
    lemma_add_mod_noop, lemma_fundamental_div_mod, lemma_fundamental_div_mod_converse,
    lemma_mod_bound,
};
use vstd::arithmetic::mul::lemma_mul_nonnegative;
use vstd::arithmetic::power2::{lemma_pow2_pos, lemma_pow2_strictly_increases, pow2};
use vstd::prelude::*;

verus! {

/// Two matrices with the same entries and the same window.
pub open spec fn same_matrix<T: SquareMatrix>(a: &T, b: &T) -> bool {
    &&& a.wf() == b.wf()
    &&& a.underlying_size() == b.underlying_size()
    &&& a.row_offset() == b.row_offset()
    &&& a.col_offset() == b.col_offset()
    &&& forall|row: int, col: int|
        #[trigger] a.underlying_entry(row, col) == b.underlying_entry(row, col)
}

/// The term of row `i` of the product of a block with a vector: the
/// entry in column `c` of the block times the vector's entry `c`. The
/// block begins at row `row0` and column `col0` of the matrix.
pub open spec fn block_term<T: SquareMatrix>(
    matrix: &T,
    v: Seq<int>,
    row0: int,
    col0: int,
    i: int,
) -> spec_fn(int) -> int {
    |c: int| matrix.underlying_entry(row0 + i, col0 + c).value() * v[c]
}

/// The product of the block of side `size` at row `row0` and column
/// `col0` with a vector, reduced.
pub open spec fn block_product<T: SquareMatrix>(
    matrix: &T,
    v: Seq<int>,
    row0: int,
    col0: int,
    size: nat,
    m: int,
) -> Seq<int> {
    Seq::new(size, |i: int| sum(block_term(matrix, v, row0, col0, i), size) % m)
}

/// The plaintext of row `i` of the block of side `size` at row `row0` and
/// column `col0`: the block's generalised diagonal, which holds at place
/// `j` the entry of the block's row `j` in its column `(i + j) mod size`,
/// rotated to the right by the largest multiple of `n1` that is not above
/// `i`.
pub open spec fn block_diagonal<T: SquareMatrix>(
    matrix: &T,
    row0: int,
    col0: int,
    size: int,
    i: int,
    n1: int,
) -> Seq<FieldElement> {
    let shift: int = (i / n1) * n1;
    Seq::new(
        size as nat,
        |t: int|
            matrix.underlying_entry(
                row0 + (t + size - shift) % size,
                col0 + (i + (t + size - shift) % size) % size,
            ),
    )
}

/// The values of the blocks of a vector, one after the other.
pub open spec fn joined(inputs: Seq<Vec<FieldElement>>, size: nat) -> Seq<int> {
    Seq::new(
        inputs.len() * size,
        |c: int| inputs[c / (size as int)]@[c % (size as int)].value(),
    )
}

/// Every list has `size` values.
pub open spec fn lists_have(inputs: Seq<Vec<FieldElement>>, size: nat) -> bool {
    forall|b: int| 0 <= b < inputs.len() ==> (#[trigger] inputs[b])@.len() == size
}

/// Half the slots are a power of two of at most `2^28`.
pub open spec fn half_is_power(slots: nat) -> bool {
    exists|levels: nat| levels <= MAX_LEVELS && slots / 2 == #[trigger] pow2(levels)
}

/// The step counts of the products on blocks: those into which `split`
/// divides half the slots.
pub open spec fn block_steps(slots: nat) -> (nat, nat) {
    split_spec(choose|levels: nat| levels <= MAX_LEVELS && slots / 2 == #[trigger] pow2(levels))
}

/// Half the slots are a power of two in one way only.
pub proof fn lemma_block_steps(slots: nat, levels: nat)
    requires
        levels <= MAX_LEVELS,
        slots / 2 == pow2(levels),
    ensures
        half_is_power(slots),
        block_steps(slots) == split_spec(levels),
{
    let chosen: nat = choose|l: nat| l <= MAX_LEVELS && slots / 2 == #[trigger] pow2(l);
    if chosen < levels {
        lemma_pow2_strictly_increases(chosen, levels);
    }
    if levels < chosen {
        lemma_pow2_strictly_increases(levels, chosen);
    }
}

/// Why the plan of a block is not made, if it is not: half the slots are
/// no power of two, the slots are odd, or the block does not lie within
/// the matrix.
pub open spec fn block_plan_error(
    size: nat,
    row_block: nat,
    col_block: nat,
    slots: nat,
) -> Option<Error> {
    if !half_is_power(slots) {
        Some(Error::NotPowerOfTwo)
    } else if slots != 2 * (slots / 2) {
        Some(Error::Packing)
    } else if (row_block + 1) * (slots / 2) > size || (col_block + 1) * (slots / 2) > size {
        Some(Error::Dimension)
    } else {
        None
    }
}

/// Why the product on blocks is not evaluated, if it is not: half the
/// slots are no power of two, the slots are odd, the dimension is not the
/// number of blocks times half the slots or a block of the vector does
/// not have half the slots' values, or, where there is a block at all, the
/// engine refuses an instruction of the first product.
pub open spec fn blocks_error(
    dim: nat,
    inputs: Seq<Vec<FieldElement>>,
    slots: nat,
    keys: Seq<i32>,
) -> Option<Error> {
    if !half_is_power(slots) {
        Some(Error::NotPowerOfTwo)
    } else if slots != 2 * (slots / 2) {
        Some(Error::Packing)
    } else if dim != inputs.len() * (slots / 2) || !lists_have(inputs, slots / 2) {
        Some(Error::Dimension)
    } else if inputs.len() == 0 {
        None
    } else {
        first_refusal(
            bsgs_program(block_steps(slots).0, block_steps(slots).1, slots),
            (REG_ROT + block_steps(slots).0) as nat,
            slots / 2,
            keys,
        )
    }
}

/// A block of the matrix is a part of its rows: the sum of the terms of
/// row `i` of block `(r, a)` with block `a` of the vector is the sum of
/// the terms `a size` to `a size + size - 1` of row `r size + i` of the
/// matrix with the whole vector.
pub proof fn lemma_block_is_part<T: SquareMatrix>(
    matrix: &T,
    inputs: Seq<Vec<FieldElement>>,
    size: nat,
    r: int,
    a: int,
    i: int,
)
    requires
        matrix.row_offset() == 0,
        matrix.col_offset() == 0,
        size >= 1,
        lists_have(inputs, size),
        0 <= r,
        0 <= a < inputs.len(),
        0 <= i < size,
    ensures
        sum(block_term(matrix, values(inputs[a]@), r * size, a * size, i), size) == at(
            block_sums(product_term(matrix, joined(inputs, size), r * size + i), size),
            a,
        ),
{
    let whole = joined(inputs, size);
    let f = product_term(matrix, whole, r * size + i);
    let part = shifted(f, a * size);
    let g = block_term(matrix, values(inputs[a]@), r * size, a * size, i);
    lemma_mul_nonnegative(a, size as int);
    assert((a + 1) * size <= inputs.len() * size) by (nonlinear_arith)
        requires
            a + 1 <= inputs.len(),
            size >= 1,
    ;
    assert((a + 1) * size == a * size + size) by (nonlinear_arith);
    assert forall|c: int| 0 <= c < size implies #[trigger] at(g, c) == at(part, c) by {
        lemma_fundamental_div_mod_converse(a * size + c, size as int, a, c);
        assert(whole[a * size + c] == inputs[a]@[c].value());
        assert(values(inputs[a]@)[c] == inputs[a]@[c].value());
        assert(at(part, c) == f(c + a * size));
    }
    lemma_sum_ext(g, part, size);
}

impl Bsgs {
    /// The plan for the block in row `row_block` and column `col_block` of
    /// the blocks of the matrix, for a filled ciphertext of `slots` slots:
    /// the block has half the slots as its side, and the step counts are
    /// those into which `split` divides that side. The window of the
    /// matrix is moved to the block and back.
    pub fn block_plan<T: OffsetMatrix>(
        matrix: &mut T,
        row_block: usize,
        col_block: usize,
        slots: usize,
    ) -> (result: Result<BsgsPlan, Error>)
        requires
            old(matrix).wf(),
            old(matrix).row_offset() == 0,
            old(matrix).col_offset() == 0,
        ensures
            final(matrix).wf(),
            same_matrix(final(matrix), old(matrix)),
            result is Ok <==> block_plan_error(
                old(matrix).underlying_size(),
                row_block as nat,
                col_block as nat,
                slots as nat,
            ) is None,
            result matches Ok(plan) ==> {
                &&& plan.program@ == bsgs_program(
                    block_steps(slots as nat).0,
                    block_steps(slots as nat).1,
                    slots as nat,
                )
                &&& plan.plaintexts@.len() == slots / 2
                &&& forall|i: int|
                    0 <= i < plan.plaintexts@.len() ==> (#[trigger] plan.plaintexts@[i])@
                        == block_diagonal(
                        old(matrix),
                        row_block * (slots / 2),
                        col_block * (slots / 2),
                        (slots / 2) as int,
                        i,
                        block_steps(slots as nat).0 as int,
                    ) && all_wf(plan.plaintexts@[i]@)
                &&& plan.registers == REG_ROT + block_steps(slots as nat).0
                &&& plan.slots == slots
            },
            result matches Err(e) ==> block_plan_error(
                old(matrix).underlying_size(),
                row_block as nat,
                col_block as nat,
                slots as nat,
            ) == Some(e),
    {
        let h: usize = slots / 2;
        let (n1, n2) = match split(h) {
            Err(e) => {
                assert(!half_is_power(slots as nat));
                return Err(e);
            },
            Ok(steps) => steps,
        };
        let ghost levels: nat = choose|levels: nat|
            levels <= MAX_LEVELS && h == #[trigger] pow2(levels) && (n1 as nat, n2 as nat)
                == split_spec(levels) && n1 * n2 == h && n2 <= n1 <= 2 * n2;
        proof {
            lemma_block_steps(slots as nat, levels);
            lemma_pow2_pos(levels);
            if levels < 28 {
                lemma_pow2_strictly_increases(levels, 28);
            }
            vstd::arithmetic::power2::lemma2_to64();
            matrix.lemma_wf();
        }
        if slots - h != h {
            return Err(Error::Packing);
        }
        let size: usize = matrix.dimension();
        let count: usize = size / h;
        proof {
            lemma_fundamental_div_mod(size as int, h as int);
            lemma_mod_bound(size as int, h as int);
            lemma_mul_nonnegative(count as int, h as int);
            if row_block < count {
                assert((row_block + 1) * h <= h * count) by (nonlinear_arith)
                    requires
                        row_block + 1 <= count,
                        h >= 1,
                ;
            } else {
                assert((row_block + 1) * h >= h * count + h) by (nonlinear_arith)
                    requires
                        row_block >= count,
                        h >= 1,
                        count >= 0,
                ;
            }
            if col_block < count {
                assert((col_block + 1) * h <= h * count) by (nonlinear_arith)
                    requires
                        col_block + 1 <= count,
                        h >= 1,
                ;
            } else {
                assert((col_block + 1) * h >= h * count + h) by (nonlinear_arith)
                    requires
                        col_block >= count,
                        h >= 1,
                        count >= 0,
                ;
            }
        }
        if row_block >= count || col_block >= count {
            return Err(Error::Dimension);
        }
        proof {
            assert((row_block + 1) * h == row_block * h + h) by (nonlinear_arith);
            assert((col_block + 1) * h == col_block * h + h) by (nonlinear_arith);
            lemma_mul_nonnegative(row_block as int, h as int);
            lemma_mul_nonnegative(col_block as int, h as int);
        }
        let row0: usize = row_block * h;
        let col0: usize = col_block * h;
        matrix.set_row_offset(row0);
        matrix.set_col_offset(col0);
        let ghost moved: T = *matrix;
        let block = MatrixBlock { matrix: &*matrix, size: h };
        let result = Bsgs::babystep_giantstep(&block, slots, n1, n2);
        proof {
            assert(valid_shape(h as nat, n1 as nat, n2 as nat, slots as nat));
            if result is Ok {
                let plan = result->Ok_0;
                assert forall|i: int| 0 <= i < plan.plaintexts@.len() implies (
                #[trigger] plan.plaintexts@[i])@ == block_diagonal(
                    old(matrix),
                    row0 as int,
                    col0 as int,
                    h as int,
                    i,
                    n1 as int,
                ) by {
                    let diag = diagonal_spec(&block, i, n1 as int, false);
                    let target = block_diagonal(
                        old(matrix),
                        row0 as int,
                        col0 as int,
                        h as int,
                        i,
                        n1 as int,
                    );
                    assert(plan.plaintexts@[i]@ == diag);
                    assert(diag.len() == target.len());
                    assert forall|t: int| 0 <= t < diag.len() implies diag[t] == target[t] by {
                        let shift: int = (i / (n1 as int)) * n1;
                        let j: int = (t + h - shift) % (h as int);
                        let c: int = (i + j) % (h as int);
                        assert(diag[t] == block_entry(&block, j, c));
                        assert(block_entry(&block, j, c) == moved.underlying_entry(
                            j + row0,
                            c + col0,
                        ));
                    }
                    assert(diag =~= target);
                }
            }
        }
        matrix.set_row_offset(0);
        matrix.set_col_offset(0);
        result
    }
}

/// In the plain model the instructions of a block's plan, with the
/// block's plaintexts, leave in slot `i` of register 0 the entry `i` of
/// the product of the block with the vector in the ciphertext. `moved` is
/// the matrix with its window at the block.
pub proof fn lemma_block_plan_computes_product<T: SquareMatrix>(
    matrix: &T,
    moved: &T,
    plaintexts: Seq<Vec<FieldElement>>,
    v: Seq<int>,
    n1: nat,
    n2: nat,
    slots: nat,
    i: int,
)
    requires
        slots == 2 * (slots / 2),
        valid_shape(slots / 2, n1, n2, slots),
        forall|row: int, col: int|
            #[trigger] moved.underlying_entry(row, col) == matrix.underlying_entry(row, col),
        moved.row_offset() + slots / 2 <= moved.underlying_size(),
        moved.col_offset() + slots / 2 <= moved.underlying_size(),
        plaintexts.len() == slots / 2,
        forall|t: int|
            0 <= t < plaintexts.len() ==> (#[trigger] plaintexts[t])@ == block_diagonal(
                matrix,
                moved.row_offset() as int,
                moved.col_offset() as int,
                (slots / 2) as int,
                t,
                n1 as int,
            ),
        v.len() == slots / 2,
        crate::transform_laws::reduced(v, modulus()),
        0 <= i < slots / 2,
    ensures
        crate::engine::run(
            bsgs_program(n1, n2, slots),
            crate::engine::initial_registers(v, (REG_ROT + n1) as nat, slots),
            crate::engine::packed_plaintexts(plaintexts, slots),
            modulus(),
        )[0][i] == block_product(
            matrix,
            v,
            moved.row_offset() as int,
            moved.col_offset() as int,
            slots / 2,
            modulus(),
        )[i],
{
    let h: nat = slots / 2;
    let size: usize = h as usize;
    let block = MatrixBlock { matrix: moved, size };
    assert(block_dimension(&block) == h);
    assert forall|t: int| 0 <= t < plaintexts.len() implies (#[trigger] plaintexts[t])@
        == diagonal_spec(&block, t, n1 as int, false) by {
        let diag = diagonal_spec(&block, t, n1 as int, false);
        let target = block_diagonal(
            matrix,
            moved.row_offset() as int,
            moved.col_offset() as int,
            h as int,
            t,
            n1 as int,
        );
        assert(diag.len() == target.len());
        assert forall|u: int| 0 <= u < diag.len() implies diag[u] == target[u] by {
            let shift: int = (t / (n1 as int)) * n1;
            let j: int = (u + h - shift) % (h as int);
            let c: int = (t + j) % (h as int);
            assert(diag[u] == block_entry(&block, j, c));
            assert(block_entry(&block, j, c) == moved.underlying_entry(
                j + moved.row_offset(),
                c + moved.col_offset(),
            ));
        }
        assert(diag =~= target);
    }
    crate::bsgs_laws::lemma_bsgs_computes_product(&block, plaintexts, v, n1, n2, slots, i);
    let f = product_term(&block, v, i);
    let g = block_term(matrix, v, moved.row_offset() as int, moved.col_offset() as int, i);
    assert forall|c: int| 0 <= c < h implies #[trigger] at(f, c) == at(g, c) by {
        assert(block_entry(&block, i, c) == moved.underlying_entry(
            i + moved.row_offset(),
            c + moved.col_offset(),
        ));
    }
    lemma_sum_ext(f, g, h);
}

/// The sum of the products of the first `a + 1` blocks of a row of blocks,
/// from that of the first `a` and the product of block `a`.
pub proof fn lemma_block_sum_step<T: SquareMatrix>(
    matrix: &T,
    inputs: Seq<Vec<FieldElement>>,
    size: nat,
    r: int,
    a: int,
    i: int,
    before: int,
    part: int,
    after: int,
    m: int,
)
    requires
        m > 0,
        matrix.row_offset() == 0,
        matrix.col_offset() == 0,
        size >= 1,
        lists_have(inputs, size),
        0 <= r,
        0 <= a < inputs.len(),
        0 <= i < size,
        a > 0 ==> before == sum(
            block_sums(product_term(matrix, joined(inputs, size), r * size + i), size),
            a as nat,
        ) % m,
        a == 0 ==> before == 0,
        part == block_product(matrix, values(inputs[a]@), r * size, a * size, size, m)[i],
        after == (before + part) % m,
    ensures
        after == sum(
            block_sums(product_term(matrix, joined(inputs, size), r * size + i), size),
            (a + 1) as nat,
        ) % m,
{
    let f = block_sums(product_term(matrix, joined(inputs, size), r * size + i), size);
    lemma_block_is_part(matrix, inputs, size, r, a, i);
    assert(sum(f, (a + 1) as nat) == sum(f, a as nat) + f(a));
    assert(part == at(f, a) % m);
    lemma_add_mod_noop(sum(f, a as nat), at(f, a), m);
    if a == 0 {
        assert(sum(f, 0) == 0);
        vstd::arithmetic::div_mod::lemma_mod_twice(at(f, a), m);
        vstd::arithmetic::div_mod::lemma_small_mod(0, m as nat);
    }
}

/// The sum of the products of all blocks of a row of blocks is the row's
/// entry of the product of the matrix with the whole vector.
pub proof fn lemma_block_sum_total<T: SquareMatrix>(
    matrix: &T,
    inputs: Seq<Vec<FieldElement>>,
    size: nat,
    r: int,
    i: int,
    m: int,
)
    requires
        matrix.row_offset() == 0,
        matrix.col_offset() == 0,
        matrix.underlying_size() == inputs.len() * size,
        size >= 1,
        0 <= r < inputs.len(),
        0 <= i < size,
    ensures
        0 <= r * size + i < inputs.len() * size,
        sum(
            block_sums(product_term(matrix, joined(inputs, size), r * size + i), size),
            inputs.len(),
        ) % m == matrix_vector(matrix, joined(inputs, size), m)[r * size + i],
{
    let f = product_term(matrix, joined(inputs, size), r * size + i);
    lemma_sum_blocks(f, size, inputs.len());
    assert(0 <= r * size + i < inputs.len() * size) by (nonlinear_arith)
        requires
            0 <= r,
            r + 1 <= inputs.len(),
            0 <= i < size,
    ;
}

/// Whether every list has `size` values.
fn all_have(inputs: &Vec<Vec<FieldElement>>, size: usize) -> (b: bool)
    ensures
        b == lists_have(inputs@, size as nat),
{
    let count: usize = inputs.len();
    for b in 0..count
        invariant
            count == inputs@.len(),
            forall|q: int| 0 <= q < b ==> (#[trigger] inputs@[q])@.len() == size,
    {
        if inputs[b].len() != size {
            return false;
        }
    }
    true
}

/// The product of one block with one block of the vector, in the plain
/// model of a filled ciphertext. The window of the matrix is moved to the
/// block and back.
fn evaluate_block<T: OffsetMatrix>(
    matrix: &mut T,
    Ghost(whole): Ghost<T>,
    row0: usize,
    col0: usize,
    input: &Vec<FieldElement>,
    slots: usize,
    n1: usize,
    n2: usize,
    keys: &Vec<i32>,
) -> (result: Result<Vec<FieldElement>, Error>)
    requires
        old(matrix).wf(),
        same_matrix(old(matrix), &whole),
        whole.row_offset() == 0,
        whole.col_offset() == 0,
        slots == 2 * (slots / 2),
        row0 + slots / 2 <= whole.underlying_size(),
        col0 + slots / 2 <= whole.underlying_size(),
        valid_shape((slots / 2) as nat, n1 as nat, n2 as nat, slots as nat),
        input@.len() == slots / 2,
        all_wf(input@),
    ensures
        final(matrix).wf(),
        same_matrix(final(matrix), &whole),
        result is Ok <==> first_refusal(
            bsgs_program(n1 as nat, n2 as nat, slots as nat),
            (REG_ROT + n1) as nat,
            (slots / 2) as nat,
            keys@,
        ) is None,
        result matches Ok(output) ==> {
            &&& output@.len() == slots
            &&& all_wf(output@)
            &&& forall|i: int|
                0 <= i < slots / 2 ==> (#[trigger] output@[i]).value() == block_product(
                    &whole,
                    values(input@),
                    row0 as int,
                    col0 as int,
                    (slots / 2) as nat,
                    modulus(),
                )[i]
        },
        result matches Err(e) ==> first_refusal(
            bsgs_program(n1 as nat, n2 as nat, slots as nat),
            (REG_ROT + n1) as nat,
            (slots / 2) as nat,
            keys@,
        ) == Some(e),
{
    let h: usize = slots / 2;
    proof {
        matrix.lemma_wf();
        lemma_keys_suffice(n1 as nat, n2 as nat, slots as nat, keys@);
    }
    matrix.set_row_offset(row0);
    matrix.set_col_offset(col0);
    let ghost moved: T = *matrix;
    let block = MatrixBlock { matrix: &*matrix, size: h };
    let result = Bsgs::evaluate_plain(&block, input, slots, n1, n2, keys);
    proof {
        assert(block_dimension(&block) == h);
        if result is Ok {
            let output = result->Ok_0;
            let v = values(input@);
            assert forall|i: int| 0 <= i < h implies (#[trigger] output@[i]).value()
                == block_product(&whole, v, row0 as int, col0 as int, h as nat, modulus())[i] by {
                let f = product_term(&block, v, i);
                let g = block_term(&whole, v, row0 as int, col0 as int, i);
                assert forall|c: int| 0 <= c < h implies #[trigger] at(f, c) == at(g, c) by {
                    assert(block_entry(&block, i, c) == moved.underlying_entry(
                        i + row0,
                        c + col0,
                    ));
                    assert(old(matrix).underlying_entry(i + row0, c + col0)
                        == whole.underlying_entry(i + row0, c + col0));
                }
                lemma_sum_ext(f, g, h as nat);
                assert(matrix_vector(&block, v, modulus())[i] == sum(f, h as nat) % modulus());
            }
        }
    }
    matrix.set_row_offset(0);
    matrix.set_col_offset(0);
    result
}

impl Bsgs {
    /// Evaluates the product of the matrix with a vector that is given in
    /// blocks, in the plain model: block `a` of the vector has half the
    /// slots' values and stands in a filled ciphertext of its own, and
    /// the matrix has as many blocks of rows and of columns as the vector
    /// has blocks. Block `r` of the result is the sum over `a` of the
    /// products of block `(r, a)` of the matrix with block `a` of the
    /// vector, each evaluated by the baby-step/giant-step product with
    /// the step counts into which `split` divides half the slots. The
    /// slots of the result's ciphertexts come back; the first half of the
    /// slots of each hold its block of the product. The window of the
    /// matrix is moved from block to block and back. Where something is
    /// refused, it is so before any product, or by the engine in the
    /// first product.
    pub fn bsgs_multiple_of_packsize<T: OffsetMatrix>(
        matrix: &mut T,
        inputs: &Vec<Vec<FieldElement>>,
        slots: usize,
        keys: &Vec<i32>,
    ) -> (result: Result<Vec<Vec<FieldElement>>, Error>)
        requires
            old(matrix).wf(),
            old(matrix).row_offset() == 0,
            old(matrix).col_offset() == 0,
            lists_wf(inputs@),
        ensures
            final(matrix).wf(),
            same_matrix(final(matrix), old(matrix)),
            result is Ok <==> blocks_error(
                block_dimension(old(matrix)),
                inputs@,
                slots as nat,
                keys@,
            ) is None,
            result matches Ok(outputs) ==> {
                &&& outputs@.len() == inputs@.len()
                &&& forall|r: int|
                    0 <= r < outputs@.len() ==> (#[trigger] outputs@[r])@.len() == slots && all_wf(
                        outputs@[r]@,
                    )
                &&& forall|r: int, i: int|
                    0 <= r < inputs@.len() && 0 <= i < slots / 2 ==> (
                    #[trigger] outputs@[r]@[i]).value() == matrix_vector(
                        old(matrix),
                        joined(inputs@, (slots / 2) as nat),
                        modulus(),
                    )[r * (slots / 2) + i]
            },
            result matches Err(e) ==> blocks_error(
                block_dimension(old(matrix)),
                inputs@,
                slots as nat,
                keys@,
            ) == Some(e),
    {
        let ghost whole: T = *matrix;
        let h: usize = slots / 2;
        let (n1, n2) = match split(h) {
            Err(e) => {
                assert(!half_is_power(slots as nat));
                return Err(e);
            },
            Ok(steps) => steps,
        };
        let ghost levels: nat = choose|levels: nat|
            levels <= MAX_LEVELS && h == #[trigger] pow2(levels) && (n1 as nat, n2 as nat)
                == split_spec(levels) && n1 * n2 == h && n2 <= n1 <= 2 * n2;
        proof {
            lemma_block_steps(slots as nat, levels);
            lemma_pow2_pos(levels);
            if levels < 28 {
                lemma_pow2_strictly_increases(levels, 28);
            }
            vstd::arithmetic::power2::lemma2_to64();
            matrix.lemma_wf();
        }
        if slots - h != h {
            return Err(Error::Packing);
        }
        let dim: usize = matrix.dimension();
        let count: usize = inputs.len();
        proof {
            lemma_fundamental_div_mod(dim as int, h as int);
            lemma_mod_bound(dim as int, h as int);
            if dim == count * h {
                lemma_fundamental_div_mod_converse(dim as int, h as int, count as int, 0);
            }
            assert(h * (dim / h) == (dim / h) * h) by (nonlinear_arith);
        }
        if dim / h != count || dim % h != 0 || !all_have(inputs, h) {
            return Err(Error::Dimension);
        }
        let ghost m: int = modulus();
        let ghost size: nat = h as nat;
        let mut outputs: Vec<Vec<FieldElement>> = Vec::with_capacity(count);
        for r in 0..count
            invariant
                matrix.wf(),
                same_matrix(matrix, &whole),
                whole == *old(matrix),
                half_is_power(slots as nat),
                block_steps(slots as nat) == (n1 as nat, n2 as nat),
                whole.row_offset() == 0,
                whole.col_offset() == 0,
                whole.underlying_size() == dim,
                count == inputs@.len(),
                h == slots / 2,
                size == h,
                h >= 1,
                slots == 2 * h,
                dim == count * h,
                valid_shape(h as nat, n1 as nat, n2 as nat, slots as nat),
                lists_wf(inputs@),
                lists_have(inputs@, size),
                m == modulus(),
                outputs@.len() == r,
                r > 0 ==> first_refusal(
                    bsgs_program(n1 as nat, n2 as nat, slots as nat),
                    (REG_ROT + n1) as nat,
                    h as nat,
                    keys@,
                ) is None,
                forall|q: int|
                    0 <= q < r ==> (#[trigger] outputs@[q])@.len() == slots && all_wf(
                        outputs@[q]@,
                    ),
                forall|q: int, i: int|
                    0 <= q < r && 0 <= i < h ==> (#[trigger] outputs@[q]@[i]).value()
                        == matrix_vector(&whole, joined(inputs@, size), m)[q * h + i],
        {
            proof {
                assert(r * h + h <= count * h) by (nonlinear_arith)
                    requires
                        r + 1 <= count,
                        h >= 1,
                ;
                lemma_mul_nonnegative(r as int, h as int);
            }
            let row0: usize = r * h;
            let mut acc: Vec<FieldElement> = Vec::new();
            for a in 0..count
                invariant
                    matrix.wf(),
                    same_matrix(matrix, &whole),
                    whole == *old(matrix),
                    half_is_power(slots as nat),
                    block_steps(slots as nat) == (n1 as nat, n2 as nat),
                    whole.row_offset() == 0,
                    whole.col_offset() == 0,
                    whole.underlying_size() == dim,
                    count == inputs@.len(),
                    r < count,
                    row0 == r * h,
                    row0 + h <= dim,
                    h == slots / 2,
                    size == h,
                    h >= 1,
                    slots == 2 * h,
                    dim == count * h,
                    valid_shape(h as nat, n1 as nat, n2 as nat, slots as nat),
                    lists_wf(inputs@),
                    lists_have(inputs@, size),
                    m == modulus(),
                    a > 0 || r > 0 ==> first_refusal(
                        bsgs_program(n1 as nat, n2 as nat, slots as nat),
                        (REG_ROT + n1) as nat,
                        h as nat,
                        keys@,
                    ) is None,
                    a > 0 ==> acc@.len() == slots && all_wf(acc@),
                    forall|i: int|
                        0 <= i < h && a > 0 ==> (#[trigger] acc@[i]).value() == sum(
                            block_sums(
                                product_term(&whole, joined(inputs@, size), r * h + i),
                                size,
                            ),
                            a as nat,
                        ) % m,
            {
                proof {
                    assert(a * h + h <= count * h) by (nonlinear_arith)
                        requires
                            a + 1 <= count,
                            h >= 1,
                    ;
                    lemma_mul_nonnegative(a as int, h as int);
                    assert(all_wf(inputs@[a as int]@));
                }
                let col0: usize = a * h;
                let part: Vec<FieldElement> = match evaluate_block(
                    matrix,
                    Ghost(whole),
                    row0,
                    col0,
                    &inputs[a],
                    slots,
                    n1,
                    n2,
                    keys,
                ) {
                    Err(e) => {
                        return Err(e);
                    },
                    Ok(output) => output,
                };
                let ghost before: Seq<FieldElement> = acc@;
                if a == 0 {
                    acc = part;
                } else {
                    acc = add_slots(&acc, &part);
                }
                proof {
                    assert forall|i: int| 0 <= i < h implies (#[trigger] acc@[i]).value() == sum(
                        block_sums(product_term(&whole, joined(inputs@, size), r * h + i), size),
                        (a + 1) as nat,
                    ) % m by {
                        let p: int = block_product(
                            &whole,
                            values(inputs@[a as int]@),
                            row0 as int,
                            col0 as int,
                            size,
                            m,
                        )[i];
                        if a == 0 {
                            lemma_mod_bound(
                                sum(
                                    block_term(
                                        &whole,
                                        values(inputs@[a as int]@),
                                        row0 as int,
                                        col0 as int,
                                        i,
                                    ),
                                    size,
                                ),
                                m,
                            );
                            vstd::arithmetic::div_mod::lemma_small_mod(p as nat, m as nat);
                            lemma_block_sum_step(
                                &whole,
                                inputs@,
                                size,
                                r as int,
                                a as int,
                                i,
                                0,
                                p,
                                acc@[i].value(),
                                m,
                            );
                        } else {
                            assert(values(acc@)[i] == (values(before)[i] + values(part@)[i]) % m);
                            lemma_block_sum_step(
                                &whole,
                                inputs@,
                                size,
                                r as int,
                                a as int,
                                i,
                                before[i].value(),
                                p,
                                acc@[i].value(),
                                m,
                            );
                        }
                    }
                }
            }
            proof {
                assert forall|i: int| 0 <= i < h implies (#[trigger] acc@[i]).value()
                    == matrix_vector(&whole, joined(inputs@, size), m)[r * h + i] by {
                    lemma_block_sum_total(&whole, inputs@, size, r as int, i, m);
                }
            }
            outputs.push(acc);
        }
        Ok(outputs)
    }
}

} // verus!
