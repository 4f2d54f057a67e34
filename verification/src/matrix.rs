//! Square matrices of field elements behind one interface: a dense
//! matrix, a shared matrix seen through a window, and the matrix of a
//! transform.

use crate::dft::primitive_root;
use crate::field::{modulus, FieldElement};
use crate::modmath::sum;
use crate::ntt::{create_pow_table, is_power_table};
use std::sync::Arc;
use vstd::arithmetic::power::pow;
use vstd::prelude::*;

verus! {

/// The larger of two numbers.
pub open spec fn max_of(a: nat, b: nat) -> nat {
    if a >= b {
        a
    } else {
        b
    }
}

/// A square block of an underlying square matrix: the block begins at the
/// row and column offsets and reaches to the matrix's edge in the
/// direction of the larger offset. A matrix that is always whole has the
/// offsets zero.
pub trait SquareMatrix: Clone {
    /// The side of the underlying matrix.
    spec fn underlying_size(&self) -> nat;

    /// The row of the underlying matrix that is the block's first.
    spec fn row_offset(&self) -> nat;

    /// The column of the underlying matrix that is the block's first.
    spec fn col_offset(&self) -> nat;

    /// The entry of the underlying matrix.
    spec fn underlying_entry(&self, row: int, col: int) -> FieldElement;

    /// The matrix is square, its entries are field elements, and the
    /// offsets lie within it.
    spec fn wf(&self) -> bool;

    /// What the invariant says of the offsets and the entries.
    proof fn lemma_wf(&self)
        requires
            self.wf(),
        ensures
            self.row_offset() <= self.underlying_size(),
            self.col_offset() <= self.underlying_size(),
            forall|row: int, col: int|
                0 <= row < self.underlying_size() && 0 <= col < self.underlying_size() ==> (
                #[trigger] self.underlying_entry(row, col)).wf(),
    ;

    /// The side of the block.
    fn dimension(&self) -> (d: usize)
        requires
            self.wf(),
        ensures
            d == self.underlying_size() - max_of(self.row_offset(), self.col_offset()),
    ;

    /// The entry of the block.
    fn get(&self, row: usize, col: usize) -> (e: FieldElement)
        requires
            self.wf(),
            row + self.row_offset() < self.underlying_size(),
            col + self.col_offset() < self.underlying_size(),
        ensures
            e == self.underlying_entry(row + self.row_offset(), col + self.col_offset()),
            e.wf(),
    ;
}

/// A square matrix whose block can be moved: the offsets are set by the
/// holder, so that one matrix can be taken block by block.
pub trait OffsetMatrix: SquareMatrix {
    /// Moves the block's first row.
    fn set_row_offset(&mut self, offset: usize)
        requires
            old(self).wf(),
            offset <= old(self).underlying_size(),
        ensures
            final(self).wf(),
            final(self).row_offset() == offset,
            final(self).col_offset() == old(self).col_offset(),
            final(self).underlying_size() == old(self).underlying_size(),
            forall|row: int, col: int|
                final(self).underlying_entry(row, col) == old(self).underlying_entry(row, col),
    ;

    /// Moves the block's first column.
    fn set_col_offset(&mut self, offset: usize)
        requires
            old(self).wf(),
            offset <= old(self).underlying_size(),
        ensures
            final(self).wf(),
            final(self).col_offset() == offset,
            final(self).row_offset() == old(self).row_offset(),
            final(self).underlying_size() == old(self).underlying_size(),
            forall|row: int, col: int|
                final(self).underlying_entry(row, col) == old(self).underlying_entry(row, col),
    ;
}

/// The side of the block that a matrix stands for.
pub open spec fn block_dimension<T: SquareMatrix>(matrix: &T) -> nat {
    (matrix.underlying_size() - max_of(matrix.row_offset(), matrix.col_offset())) as nat
}

/// The entry of the block that a matrix stands for.
pub open spec fn block_entry<T: SquareMatrix>(matrix: &T, row: int, col: int) -> FieldElement {
    matrix.underlying_entry(row + matrix.row_offset(), col + matrix.col_offset())
}

/// The term of row `i` of the product of a matrix and a vector: the
/// entry in column `c` times the vector's entry `c`.
pub open spec fn product_term<T: SquareMatrix>(matrix: &T, v: Seq<int>, i: int) -> spec_fn(
    int,
) -> int {
    |c: int| block_entry(matrix, i, c).value() * v[c]
}

/// The product of a matrix and a vector, reduced.
pub open spec fn matrix_vector<T: SquareMatrix>(matrix: &T, v: Seq<int>, m: int) -> Seq<int> {
    Seq::new(
        block_dimension(matrix),
        |i: int| sum(product_term(matrix, v, i), block_dimension(matrix)) % m,
    )
}

/// A block of a matrix as a matrix of its own: the `size` rows and columns
/// from the matrix's offsets on.
#[derive(Clone)]
pub struct MatrixBlock<'a, T: SquareMatrix> {
    pub matrix: &'a T,
    pub size: usize,
}

impl<'a, T: SquareMatrix> SquareMatrix for MatrixBlock<'a, T> {
    open spec fn underlying_size(&self) -> nat {
        self.size as nat
    }

    open spec fn row_offset(&self) -> nat {
        0
    }

    open spec fn col_offset(&self) -> nat {
        0
    }

    open spec fn underlying_entry(&self, row: int, col: int) -> FieldElement {
        block_entry(self.matrix, row, col)
    }

    open spec fn wf(&self) -> bool {
        &&& self.matrix.wf()
        &&& self.size + self.matrix.row_offset() <= self.matrix.underlying_size()
        &&& self.size + self.matrix.col_offset() <= self.matrix.underlying_size()
    }

    proof fn lemma_wf(&self) {
        self.matrix.lemma_wf();
    }

    fn dimension(&self) -> (d: usize) {
        self.size
    }

    fn get(&self, row: usize, col: usize) -> (e: FieldElement) {
        self.matrix.get(row, col)
    }
}

/// The rows have the length of the list and hold field elements.
pub open spec fn is_square(rows: Seq<Vec<FieldElement>>) -> bool {
    forall|i: int|
        0 <= i < rows.len() ==> (#[trigger] rows[i])@.len() == rows.len() && crate::field::all_wf(
            rows[i]@,
        )
}

/// A dense matrix as the list of its rows. It is always the whole
/// matrix: it has no offsets to set.
impl SquareMatrix for Vec<Vec<FieldElement>> {
    open spec fn underlying_size(&self) -> nat {
        self@.len()
    }

    open spec fn row_offset(&self) -> nat {
        0
    }

    open spec fn col_offset(&self) -> nat {
        0
    }

    open spec fn underlying_entry(&self, row: int, col: int) -> FieldElement {
        self@[row]@[col]
    }

    open spec fn wf(&self) -> bool {
        is_square(self@)
    }

    proof fn lemma_wf(&self) {
        assert forall|row: int, col: int|
            0 <= row < self.underlying_size() && 0 <= col < self.underlying_size() implies (
        #[trigger] self.underlying_entry(row, col)).wf() by {
            assert(crate::field::all_wf(self@[row]@));
        }
    }

    fn dimension(&self) -> (d: usize) {
        self.len()
    }

    fn get(&self, row: usize, col: usize) -> (e: FieldElement) {
        proof {
            assert(crate::field::all_wf(self@[row as int]@));
        }
        self[row][col]
    }
}

/// A matrix behind a shared owner, seen through a window that each holder
/// of a clone sets for itself.
#[derive(Clone)]
pub struct SplittableMatrix {
    matrix: Arc<Vec<Vec<FieldElement>>>,
    row_offset: usize,
    col_offset: usize,
}

impl SplittableMatrix {
    /// The whole of `matrix`.
    pub fn new(matrix: Vec<Vec<FieldElement>>) -> (m: SplittableMatrix)
        requires
            is_square(matrix@),
        ensures
            m.wf(),
            m.underlying_size() == matrix@.len(),
            m.row_offset() == 0,
            m.col_offset() == 0,
            forall|row: int, col: int| m.underlying_entry(row, col) == matrix@[row]@[col],
    {
        SplittableMatrix { matrix: Arc::new(matrix), row_offset: 0, col_offset: 0 }
    }
}

impl SquareMatrix for SplittableMatrix {
    closed spec fn underlying_size(&self) -> nat {
        self.matrix@.len()
    }

    closed spec fn row_offset(&self) -> nat {
        self.row_offset as nat
    }

    closed spec fn col_offset(&self) -> nat {
        self.col_offset as nat
    }

    closed spec fn underlying_entry(&self, row: int, col: int) -> FieldElement {
        self.matrix@[row]@[col]
    }

    closed spec fn wf(&self) -> bool {
        &&& is_square(self.matrix@)
        &&& self.row_offset <= self.matrix@.len()
        &&& self.col_offset <= self.matrix@.len()
    }

    proof fn lemma_wf(&self) {
        assert forall|row: int, col: int|
            0 <= row < self.underlying_size() && 0 <= col < self.underlying_size() implies (
        #[trigger] self.underlying_entry(row, col)).wf() by {
            assert(crate::field::all_wf(self.matrix@[row]@));
        }
    }

    fn dimension(&self) -> (d: usize) {
        let larger: usize = if self.row_offset >= self.col_offset {
            self.row_offset
        } else {
            self.col_offset
        };
        self.matrix.len() - larger
    }

    fn get(&self, row: usize, col: usize) -> (e: FieldElement) {
        // the length is a machine number, so the sums below are too
        let size: usize = self.matrix.len();
        proof {
            assert(crate::field::all_wf(self.matrix@[self.row_offset + row]@));
        }
        self.matrix[self.row_offset + row][self.col_offset + col]
    }
}

impl OffsetMatrix for SplittableMatrix {
    fn set_row_offset(&mut self, offset: usize) {
        self.row_offset = offset;
    }

    fn set_col_offset(&mut self, offset: usize) {
        self.col_offset = offset;
    }
}

/// The matrix of the transform of length `n` with a root `w`: the entry
/// in row `r` and column `c` is the power `r c` of the root, the exponent
/// taken modulo `n`.
#[derive(Clone)]
pub struct FFTMatrix {
    n: usize,
    root: FieldElement,
    powers: Vec<FieldElement>,
    row_offset: usize,
    col_offset: usize,
}

impl FFTMatrix {
    /// The root whose powers the entries are.
    pub closed spec fn root_value(&self) -> int {
        self.root.value()
    }

    /// The matrix of the transform of length `n` with the root `root`.
    pub fn new(n: usize, root: FieldElement) -> (matrix: FFTMatrix)
        requires
            1 <= n <= 0x1000_0000,
            root.wf(),
        ensures
            matrix.wf(),
            matrix.underlying_size() == n,
            matrix.row_offset() == 0,
            matrix.col_offset() == 0,
            matrix.root_value() == root.value(),
    {
        let powers: Vec<FieldElement> = create_pow_table(2 * n, root);
        FFTMatrix { n, root, powers, row_offset: 0, col_offset: 0 }
    }

    /// The entries are the powers of the root.
    pub proof fn lemma_entry(&self, row: int, col: int)
        requires
            self.wf(),
            0 <= row < self.underlying_size(),
            0 <= col < self.underlying_size(),
        ensures
            0 <= (row * col) % (self.underlying_size() as int),
            self.underlying_entry(row, col).value() == pow(
                self.root_value(),
                ((row * col) % (self.underlying_size() as int)) as nat,
            ) % modulus(),
    {
        vstd::arithmetic::mul::lemma_mul_nonnegative(row, col);
        vstd::arithmetic::div_mod::lemma_mod_bound(row * col, self.n as int);
    }

    /// The root of unity of order `n` with the least value, as
    /// `roots::get_minimal_root` gives it.
    pub fn get_minimal_root(n: usize) -> (result: Option<FieldElement>)
        ensures
            result is Some <==> exists|level: nat|
                level <= crate::ntt::MAX_LEVELS && n == #[trigger] vstd::arithmetic::power2::pow2(
                    level,
                ),
            result matches Some(root) ==> root.wf() && primitive_root(
                root.value(),
                n as nat,
                modulus(),
            ) && (n >= 2 ==> crate::roots::is_minimal_root(root.value(), n as nat)),
    {
        crate::roots::get_minimal_root(n)
    }

    /// The root of unity of order `n` that the least non-residue gives,
    /// as `roots::get_groth16_root` gives it.
    pub fn get_groth16_root(n: usize) -> (result: Option<FieldElement>)
        ensures
            result is Some <==> exists|level: nat|
                level <= crate::ntt::MAX_LEVELS && n == #[trigger] vstd::arithmetic::power2::pow2(
                    level,
                ),
            result matches Some(root) ==> root.wf() && primitive_root(
                root.value(),
                n as nat,
                modulus(),
            ) && crate::roots::is_groth16_root(root.value(), n as nat),
    {
        crate::roots::get_groth16_root(n)
    }
}

impl SquareMatrix for FFTMatrix {
    closed spec fn underlying_size(&self) -> nat {
        self.n as nat
    }

    closed spec fn row_offset(&self) -> nat {
        self.row_offset as nat
    }

    closed spec fn col_offset(&self) -> nat {
        self.col_offset as nat
    }

    closed spec fn underlying_entry(&self, row: int, col: int) -> FieldElement {
        self.powers@[(row * col) % (self.n as int)]
    }

    closed spec fn wf(&self) -> bool {
        &&& 1 <= self.n <= 0x1000_0000
        &&& self.root.wf()
        &&& is_power_table(self.powers@, self.root.value(), self.n as nat)
        &&& self.row_offset <= self.n
        &&& self.col_offset <= self.n
    }

    proof fn lemma_wf(&self) {
        assert forall|row: int, col: int|
            0 <= row < self.underlying_size() && 0 <= col < self.underlying_size() implies (
        #[trigger] self.underlying_entry(row, col)).wf() by {
            vstd::arithmetic::mul::lemma_mul_nonnegative(row, col);
            vstd::arithmetic::div_mod::lemma_mod_bound(row * col, self.n as int);
        }
    }

    fn dimension(&self) -> (d: usize) {
        let larger: usize = if self.row_offset >= self.col_offset {
            self.row_offset
        } else {
            self.col_offset
        };
        self.n - larger
    }

    fn get(&self, row: usize, col: usize) -> (e: FieldElement) {
        let r: u64 = (self.row_offset + row) as u64;
        let c: u64 = (self.col_offset + col) as u64;
        assert(r * c < 0x1000_0000 * 0x1000_0000) by (nonlinear_arith)
            requires
                r < 0x1000_0000,
                c < 0x1000_0000,
        ;
        let index: usize = ((r * c) % (self.n as u64)) as usize;
        proof {
            vstd::arithmetic::mul::lemma_mul_nonnegative(r as int, c as int);
            vstd::arithmetic::div_mod::lemma_mod_bound(r * c, self.n as int);
        }
        self.powers[index]
    }
}

impl OffsetMatrix for FFTMatrix {
    fn set_row_offset(&mut self, offset: usize) {
        self.row_offset = offset;
    }

    fn set_col_offset(&mut self, offset: usize) {
        self.col_offset = offset;
    }
}

} // verus!
