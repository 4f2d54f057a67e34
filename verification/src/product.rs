//! The product of a plaintext matrix with a vector of ciphertexts, one
//! ciphertext for every entry of the vector: every ciphertext is multiplied
//! by the entries of its column, and the products of a row are added.

use crate::engine::{run, Instruction};
use crate::error::Error;
use crate::matrix::{block_dimension, block_entry, matrix_vector, product_term, SquareMatrix};
use crate::modmath::{
    at, congruent, lemma_congruent_add, lemma_congruent_canonical, lemma_congruent_mod, sum,
};
use crate::slots::{added, scaled};
use vstd::arithmetic::mul::lemma_mul_is_commutative;
use vstd::prelude::*;

verus! {

/// The largest dimension for which instructions are written: the
/// registers are twice the dimension and one.
pub const MAX_VECTOR: usize = 0x4000_0000;

/// The instructions up to column `col` of row `row`. The ciphertexts of
/// the vector are in the registers 0 to `dim - 1`, the results come into
/// the registers `dim` to `2 dim - 1`, and register `2 dim` holds one
/// product at a time.
pub open spec fn row_program<T: SquareMatrix>(matrix: &T, row: nat, col: nat) -> Seq<Instruction>
    decreases row, col,
{
    let dim: nat = block_dimension(matrix);
    if col == 0 {
        let before: Seq<Instruction> = if row == 0 {
            Seq::<Instruction>::empty()
        } else {
            row_program(matrix, (row - 1) as nat, (dim - 1) as nat)
        };
        before.push(
            Instruction::MulScalar {
                dst: (dim + row) as usize,
                src: 0,
                scalar: block_entry(matrix, row as int, 0),
            },
        )
    } else {
        row_program(matrix, row, (col - 1) as nat).push(
            Instruction::MulScalar {
                dst: (2 * dim) as usize,
                src: col as usize,
                scalar: block_entry(matrix, row as int, col as int),
            },
        ).push(Instruction::Add { dst: (dim + row) as usize, src: (2 * dim) as usize })
    }
}

/// The instructions of the whole product.
pub open spec fn product_program<T: SquareMatrix>(matrix: &T) -> Seq<Instruction> {
    if block_dimension(matrix) == 0 {
        Seq::<Instruction>::empty()
    } else {
        row_program(
            matrix,
            (block_dimension(matrix) - 1) as nat,
            (block_dimension(matrix) - 1) as nat,
        )
    }
}

/// The instructions by which the product of the matrix with a vector of
/// `count` ciphertexts is evaluated. They are refused if the vector does
/// not have the matrix's dimension, or if the dimension is above `2^30`.
pub fn plain_matrix_ctxt_vector<T: SquareMatrix>(mat: &T, count: usize) -> (result: Result<
    Vec<Instruction>,
    Error,
>)
    requires
        mat.wf(),
    ensures
        result is Ok <==> count == block_dimension(mat) && count <= MAX_VECTOR,
        result matches Ok(program) ==> program@ == product_program(mat),
        result matches Err(e) ==> e == Error::Dimension,
{
    let dim: usize = mat.dimension();
    if dim != count || dim > MAX_VECTOR {
        return Err(Error::Dimension);
    }
    let mut program: Vec<Instruction> = Vec::new();
    proof {
        mat.lemma_wf();
    }
    for row in 0..dim
        invariant
            mat.wf(),
            dim == block_dimension(mat),
            dim <= MAX_VECTOR,
            mat.row_offset() <= mat.underlying_size(),
            mat.col_offset() <= mat.underlying_size(),
            program@ == (if row == 0 {
                Seq::<Instruction>::empty()
            } else {
                row_program(mat, (row - 1) as nat, (dim - 1) as nat)
            }),
    {
        program.push(Instruction::MulScalar { dst: dim + row, src: 0, scalar: mat.get(row, 0) });
        for col in 1..dim
            invariant
                mat.wf(),
                dim == block_dimension(mat),
                dim <= MAX_VECTOR,
                row < dim,
                mat.row_offset() <= mat.underlying_size(),
                mat.col_offset() <= mat.underlying_size(),
                program@ == row_program(mat, row as nat, (col - 1) as nat),
        {
            program.push(
                Instruction::MulScalar { dst: 2 * dim, src: col, scalar: mat.get(row, col) },
            );
            program.push(Instruction::Add { dst: dim + row, src: 2 * dim });
        }
    }
    Ok(program)
}

/// The result of a row up to column `col`: the sum of the ciphertexts 0
/// to `col`, each multiplied by the row's entry in its column.
pub open spec fn row_result<T: SquareMatrix>(
    matrix: &T,
    regs: Seq<Seq<int>>,
    row: nat,
    col: nat,
    m: int,
) -> Seq<int>
    decreases col,
{
    if col == 0 {
        scaled(regs[0], block_entry(matrix, row as int, 0).value(), m)
    } else {
        added(
            row_result(matrix, regs, row, (col - 1) as nat, m),
            scaled(regs[col as int], block_entry(matrix, row as int, col as int).value(), m),
            m,
        )
    }
}

/// After the instructions up to column `col` of row `row`, the registers
/// of the vector are as they were, the registers of the rows before hold
/// their results, and the register of the row holds its result up to the
/// column.
pub proof fn lemma_run_rows<T: SquareMatrix>(
    matrix: &T,
    regs: Seq<Seq<int>>,
    plain: Seq<Seq<int>>,
    row: nat,
    col: nat,
    m: int,
)
    requires
        block_dimension(matrix) <= MAX_VECTOR,
        regs.len() == 2 * block_dimension(matrix) + 1,
        row < block_dimension(matrix),
        col < block_dimension(matrix),
    ensures
        ({
            let dim = block_dimension(matrix);
            let s = run(row_program(matrix, row, col), regs, plain, m);
            &&& s.len() == regs.len()
            &&& forall|c: int| 0 <= c < dim ==> #[trigger] s[c] == regs[c]
            &&& forall|r: int|
                0 <= r < row ==> #[trigger] s[dim + r] == row_result(
                    matrix,
                    regs,
                    r as nat,
                    (dim - 1) as nat,
                    m,
                )
            &&& s[(dim + row) as int] == row_result(matrix, regs, row, col, m)
        }),
    decreases row, col,
{
    let dim: nat = block_dimension(matrix);
    if col == 0 {
        let before: Seq<Instruction> = if row == 0 {
            Seq::<Instruction>::empty()
        } else {
            row_program(matrix, (row - 1) as nat, (dim - 1) as nat)
        };
        let first = Instruction::MulScalar {
            dst: (dim + row) as usize,
            src: 0,
            scalar: block_entry(matrix, row as int, 0),
        };
        if row > 0 {
            lemma_run_rows(matrix, regs, plain, (row - 1) as nat, (dim - 1) as nat, m);
        } else {
            assert(run(before, regs, plain, m) == regs);
        }
        crate::bsgs_laws::lemma_run_push(before, first, regs, plain, m);
        let s0 = run(before, regs, plain, m);
        let s1 = run(before.push(first), regs, plain, m);
        assert(s0[0] == regs[0]);
        assert forall|r: int| 0 <= r < row implies #[trigger] s1[dim + r] == row_result(
            matrix,
            regs,
            r as nat,
            (dim - 1) as nat,
            m,
        ) by {
            assert(s1[dim + r] == s0[dim + r]);
        }
    } else {
        let before = row_program(matrix, row, (col - 1) as nat);
        let product = Instruction::MulScalar {
            dst: (2 * dim) as usize,
            src: col as usize,
            scalar: block_entry(matrix, row as int, col as int),
        };
        let add = Instruction::Add { dst: (dim + row) as usize, src: (2 * dim) as usize };
        lemma_run_rows(matrix, regs, plain, row, (col - 1) as nat, m);
        crate::bsgs_laws::lemma_run_push(before, product, regs, plain, m);
        crate::bsgs_laws::lemma_run_push(before.push(product), add, regs, plain, m);
        let s0 = run(before, regs, plain, m);
        let s2 = run(before.push(product).push(add), regs, plain, m);
        assert(s0[col as int] == regs[col as int]);
        assert forall|r: int| 0 <= r < row implies #[trigger] s2[dim + r] == row_result(
            matrix,
            regs,
            r as nat,
            (dim - 1) as nat,
            m,
        ) by {
            assert(s2[dim + r] == s0[dim + r]);
        }
        assert forall|c: int| 0 <= c < dim implies #[trigger] s2[c] == regs[c] by {
            assert(s2[c] == s0[c]);
        }
    }
}

/// The values that the ciphertexts of the vector hold in one slot.
pub open spec fn slot_column(regs: Seq<Seq<int>>, dim: nat, slot: int) -> Seq<int> {
    Seq::new(dim, |c: int| regs[c][slot])
}

/// The result of a row, slot by slot.
proof fn lemma_row_result<T: SquareMatrix>(
    matrix: &T,
    regs: Seq<Seq<int>>,
    row: nat,
    col: nat,
    m: int,
    slot: int,
)
    requires
        m > 0,
        col < block_dimension(matrix),
        regs.len() >= block_dimension(matrix),
        forall|c: int| 0 <= c < block_dimension(matrix) ==> 0 <= slot < (#[trigger] regs[c]).len(),
    ensures
        row_result(matrix, regs, row, col, m).len() == regs[0].len(),
        0 <= row_result(matrix, regs, row, col, m)[slot] < m,
        congruent(
            row_result(matrix, regs, row, col, m)[slot],
            sum(
                product_term(matrix, slot_column(regs, block_dimension(matrix), slot), row as int),
                col + 1,
            ),
            m,
        ),
    decreases col,
{
    let dim: nat = block_dimension(matrix);
    let column = slot_column(regs, dim, slot);
    let f = product_term(matrix, column, row as int);
    assert(regs[0].len() > slot);
    assert(regs[col as int].len() > slot);
    if col == 0 {
        assert(sum(f, 1) == sum(f, 0) + f(0));
        lemma_congruent_mod(regs[0][slot] * block_entry(matrix, row as int, 0).value(), m);
        lemma_mul_is_commutative(regs[0][slot], block_entry(matrix, row as int, 0).value());
    } else {
        lemma_row_result(matrix, regs, row, (col - 1) as nat, m, slot);
        let before: int = row_result(matrix, regs, row, (col - 1) as nat, m)[slot];
        let product: int = regs[col as int][slot] * block_entry(
            matrix,
            row as int,
            col as int,
        ).value();
        lemma_congruent_mod(product, m);
        lemma_congruent_mod(before + product % m, m);
        lemma_congruent_add(before, sum(f, col), product % m, product, m);
        lemma_mul_is_commutative(
            regs[col as int][slot],
            block_entry(matrix, row as int, col as int).value(),
        );
        assert(sum(f, col + 1) == sum(f, col) + f(col as int));
    }
}

/// In the plain model the instructions of the product leave, in every
/// slot of the register of a row, the row's entry of the product of the
/// matrix with the values that the vector's ciphertexts hold in that slot.
pub proof fn lemma_product_program<T: SquareMatrix>(
    matrix: &T,
    regs: Seq<Seq<int>>,
    plain: Seq<Seq<int>>,
    m: int,
    row: int,
    slot: int,
)
    requires
        m > 0,
        block_dimension(matrix) <= MAX_VECTOR,
        regs.len() == 2 * block_dimension(matrix) + 1,
        0 <= row < block_dimension(matrix),
        forall|c: int| 0 <= c < block_dimension(matrix) ==> 0 <= slot < (#[trigger] regs[c]).len(),
    ensures
        run(product_program(matrix), regs, plain, m)[block_dimension(matrix) + row][slot]
            == matrix_vector(matrix, slot_column(regs, block_dimension(matrix), slot), m)[row],
{
    let dim: nat = block_dimension(matrix);
    lemma_run_rows(matrix, regs, plain, (dim - 1) as nat, (dim - 1) as nat, m);
    lemma_row_result(matrix, regs, row as nat, (dim - 1) as nat, m, slot);
    let s = run(product_program(matrix), regs, plain, m);
    if row < dim - 1 {
        assert(s[dim + row] == row_result(matrix, regs, row as nat, (dim - 1) as nat, m));
    }
    lemma_congruent_canonical(
        row_result(matrix, regs, row as nat, (dim - 1) as nat, m)[slot],
        sum(product_term(matrix, slot_column(regs, dim, slot), row), dim),
        m,
    );
}

} // verus!
