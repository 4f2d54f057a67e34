//! What the instructions of a baby-step/giant-step product compute in the
//! plain model of the slots, and for which rotation steps they ask.

use crate::bsgs::{
    baby_program, bsgs_program, diagonal_spec, fully_packed, giant_program, indices_spec,
    inner_program, prelude_program, spare_packed, valid_shape, MAX_DIMENSION, REG_CTXT,
    REG_INNER, REG_ROT, REG_TMP,
};
use crate::dft::{dft, dft_term, lemma_pow_mod_order, lemma_root_order, primitive_root};
use crate::matrix::{
    block_dimension, block_entry, matrix_vector, product_term, FFTMatrix, SquareMatrix,
};
use vstd::arithmetic::power::pow;
use crate::modmath::{
    at, congruent, lemma_congruent_add, lemma_congruent_canonical, lemma_congruent_mod,
    lemma_congruent_mul, lemma_sum_congruent, lemma_sum_ext, lemma_sum_split, sum,
};
use crate::transform_laws::{lemma_sum_rotation, reduced};
use vstd::arithmetic::div_mod::{
    lemma_fundamental_div_mod_converse, lemma_mod_bound, lemma_small_mod,
};
use crate::engine::{
    apply, first_refusal, initial_registers, instruction_ok, is_rotation_by, lemma_refusal,
    lemma_requests_push, packed_plaintexts, requests, run, well_formed, Instruction,
};
use crate::error::Error;
use crate::field::{modulus, values, FieldElement};
use crate::slots::{added, multiplied, packed, rotated};
use vstd::arithmetic::mul::{lemma_mul_is_commutative, lemma_mul_nonnegative};
use vstd::prelude::*;

verus! {

/// The ciphertext from which the rotated copies are made: the values that
/// are given, and for a ciphertext with room to spare a second copy of
/// them behind the first.
pub open spec fn prepared(v: Seq<int>, dim: nat, slots: nat, m: int) -> Seq<int> {
    if slots != 2 * dim {
        added(packed(v, slots), rotated(packed(v, slots), -(dim as int)), m)
    } else {
        packed(v, slots)
    }
}

/// The slots after `j` rotations by one.
pub open spec fn iterated_rotation(c: Seq<int>, j: nat) -> Seq<int>
    decreases j,
{
    if j == 0 {
        c
    } else {
        rotated(iterated_rotation(c, (j - 1) as nat), 1)
    }
}

/// The sum of giant step `k` up to its term `j`: the rotated copies times
/// the plaintexts `k n1`, ..., `k n1 + j`.
pub open spec fn inner_sum(
    c: Seq<int>,
    plain: Seq<Seq<int>>,
    n1: nat,
    k: nat,
    j: nat,
    m: int,
) -> Seq<int>
    decreases j,
{
    if j == 0 {
        multiplied(c, plain[(k * n1) as int], m)
    } else {
        added(
            inner_sum(c, plain, n1, k, (j - 1) as nat, m),
            multiplied(iterated_rotation(c, j), plain[(k * n1 + j) as int], m),
            m,
        )
    }
}

/// The result up to giant step `k`: the sums of the giant steps, each
/// rotated by its multiple of `n1`.
pub open spec fn outer_sum(c: Seq<int>, plain: Seq<Seq<int>>, n1: nat, k: nat, m: int) -> Seq<
    int,
>
    decreases k,
{
    if k == 0 {
        inner_sum(c, plain, n1, 0, (n1 - 1) as nat, m)
    } else {
        added(
            outer_sum(c, plain, n1, (k - 1) as nat, m),
            rotated(inner_sum(c, plain, n1, k, (n1 - 1) as nat, m), (k * n1) as int),
            m,
        )
    }
}

/// Running a program with one more instruction is running the program
/// and applying the instruction.
pub proof fn lemma_run_push(
    program: Seq<Instruction>,
    ins: Instruction,
    regs: Seq<Seq<int>>,
    plain: Seq<Seq<int>>,
    m: int,
)
    ensures
        run(program.push(ins), regs, plain, m) == apply(run(program, regs, plain, m), ins, plain, m),
{
    assert(program.push(ins).drop_last() =~= program);
    assert(program.push(ins).last() == ins);
}

/// The registers hold the prepared ciphertext's rotated copies up to
/// copy `upto`.
pub open spec fn copies_made(s: Seq<Seq<int>>, c: Seq<int>, n1: nat, upto: nat) -> bool {
    &&& s.len() == REG_ROT + n1
    &&& forall|j: int| 0 <= j <= upto ==> #[trigger] s[REG_ROT + j] == iterated_rotation(c, j as nat)
}

/// After the instructions up to the copy `j`, register 0 holds the
/// prepared ciphertext and the registers of the copies hold the copies.
pub proof fn lemma_run_baby(
    v: Seq<int>,
    plain: Seq<Seq<int>>,
    n1: nat,
    dim: nat,
    slots: nat,
    j: nat,
    m: int,
)
    requires
        1 <= dim <= MAX_DIMENSION,
        j < n1 <= dim,
    ensures
        ({
            let s = run(
                baby_program(dim, slots != 2 * dim, j),
                initial_registers(v, (REG_ROT + n1) as nat, slots),
                plain,
                m,
            );
            &&& s[REG_CTXT as int] == prepared(v, dim, slots, m)
            &&& copies_made(s, prepared(v, dim, slots, m), n1, j)
        }),
    decreases j,
{
    let spare: bool = slots != 2 * dim;
    let start = initial_registers(v, (REG_ROT + n1) as nat, slots);
    let c = prepared(v, dim, slots, m);
    if j == 0 {
        let first = Instruction::Copy { dst: REG_ROT, src: REG_CTXT };
        let prelude = prelude_program(dim, spare);
        lemma_run_push(prelude, first, start, plain, m);
        let s0 = run(prelude, start, plain, m);
        assert(s0.len() == REG_ROT + n1 && s0[0] == c) by {
            if spare {
                let i1 = Instruction::Copy { dst: REG_TMP, src: REG_CTXT };
                let i2 = Instruction::Rotate { reg: REG_TMP, step: (-(dim as int)) as i32 };
                let i3 = Instruction::Add { dst: REG_CTXT, src: REG_TMP };
                let e = Seq::<Instruction>::empty();
                assert(prelude =~= e.push(i1).push(i2).push(i3));
                lemma_run_push(e.push(i1).push(i2), i3, start, plain, m);
                lemma_run_push(e.push(i1), i2, start, plain, m);
                lemma_run_push(e, i1, start, plain, m);
                assert(run(e, start, plain, m) == start);
                assert(start[0] == packed(v, slots));
            } else {
                assert(run(prelude, start, plain, m) == start);
            }
        }
    } else {
        let before = baby_program(dim, spare, (j - 1) as nat);
        let copy = Instruction::Copy { dst: (REG_ROT + j) as usize, src: (REG_ROT + j - 1) as usize };
        let turn = Instruction::Rotate { reg: (REG_ROT + j) as usize, step: 1 };
        lemma_run_baby(v, plain, n1, dim, slots, (j - 1) as nat, m);
        lemma_run_push(before, copy, start, plain, m);
        lemma_run_push(before.push(copy), turn, start, plain, m);
        let s0 = run(before, start, plain, m);
        let s2 = run(before.push(copy).push(turn), start, plain, m);
        assert(s0[REG_ROT + (j - 1)] == iterated_rotation(c, (j - 1) as nat));
        assert forall|t: int| 0 <= t <= j implies #[trigger] s2[REG_ROT + t] == iterated_rotation(
            c,
            t as nat,
        ) by {
            if t < j {
                assert(s0[REG_ROT + t] == iterated_rotation(c, t as nat));
            }
        }
    }
}

/// After the instructions up to the term `j` of giant step `k`, the
/// register of the sum holds the sum up to that term; after those up to
/// the end of giant step `k`, register 0 holds the result up to that
/// step.
pub proof fn lemma_run_inner(
    v: Seq<int>,
    plain: Seq<Seq<int>>,
    n1: nat,
    dim: nat,
    slots: nat,
    k: nat,
    j: nat,
    m: int,
)
    requires
        1 <= dim <= MAX_DIMENSION,
        1 <= n1 <= dim,
        j < n1,
        k * n1 + n1 <= dim,
    ensures
        ({
            let c = prepared(v, dim, slots, m);
            let s = run(
                inner_program(n1, dim, slots != 2 * dim, k, j),
                initial_registers(v, (REG_ROT + n1) as nat, slots),
                plain,
                m,
            );
            &&& copies_made(s, c, n1, (n1 - 1) as nat)
            &&& s[REG_INNER as int] == inner_sum(c, plain, n1, k, j, m)
            &&& k > 0 ==> s[REG_CTXT as int] == outer_sum(c, plain, n1, (k - 1) as nat, m)
        }),
    decreases k, j,
{
    let spare: bool = slots != 2 * dim;
    let start = initial_registers(v, (REG_ROT + n1) as nat, slots);
    let c = prepared(v, dim, slots, m);
    lemma_mul_nonnegative(k as int, n1 as int);
    if j == 0 {
        let before = if k == 0 {
            baby_program(dim, spare, (n1 - 1) as nat)
        } else {
            giant_program(n1, dim, spare, (k - 1) as nat)
        };
        let first = Instruction::MulPlain {
            dst: REG_INNER,
            src: REG_ROT,
            plaintext: (k * n1) as usize,
        };
        if k == 0 {
            lemma_run_baby(v, plain, n1, dim, slots, (n1 - 1) as nat, m);
        } else {
            assert((k - 1) * n1 + n1 <= dim) by (nonlinear_arith)
                requires
                    k * n1 + n1 <= dim,
                    k >= 1,
            ;
            lemma_run_giant(v, plain, n1, dim, slots, (k - 1) as nat, m);
        }
        lemma_run_push(before, first, start, plain, m);
        let s0 = run(before, start, plain, m);
        let s1 = run(before.push(first), start, plain, m);
        assert(s0[REG_ROT + 0] == iterated_rotation(c, 0));
        assert forall|t: int| 0 <= t <= n1 - 1 implies #[trigger] s1[REG_ROT + t]
            == iterated_rotation(c, t as nat) by {
            assert(s0[REG_ROT + t] == iterated_rotation(c, t as nat));
        }
    } else {
        let before = inner_program(n1, dim, spare, k, (j - 1) as nat);
        let product = Instruction::MulPlain {
            dst: REG_TMP,
            src: (REG_ROT + j) as usize,
            plaintext: (k * n1 + j) as usize,
        };
        let sum = Instruction::Add { dst: REG_INNER, src: REG_TMP };
        lemma_run_inner(v, plain, n1, dim, slots, k, (j - 1) as nat, m);
        lemma_run_push(before, product, start, plain, m);
        lemma_run_push(before.push(product), sum, start, plain, m);
        let s0 = run(before, start, plain, m);
        let s2 = run(before.push(product).push(sum), start, plain, m);
        assert(s0[REG_ROT + j] == iterated_rotation(c, j));
        assert forall|t: int| 0 <= t <= n1 - 1 implies #[trigger] s2[REG_ROT + t]
            == iterated_rotation(c, t as nat) by {
            assert(s0[REG_ROT + t] == iterated_rotation(c, t as nat));
        }
    }
}

/// After the instructions up to the end of giant step `k`, register 0
/// holds the result up to that step.
pub proof fn lemma_run_giant(
    v: Seq<int>,
    plain: Seq<Seq<int>>,
    n1: nat,
    dim: nat,
    slots: nat,
    k: nat,
    m: int,
)
    requires
        1 <= dim <= MAX_DIMENSION,
        1 <= n1 <= dim,
        k * n1 + n1 <= dim,
    ensures
        ({
            let c = prepared(v, dim, slots, m);
            let s = run(
                giant_program(n1, dim, slots != 2 * dim, k),
                initial_registers(v, (REG_ROT + n1) as nat, slots),
                plain,
                m,
            );
            &&& copies_made(s, c, n1, (n1 - 1) as nat)
            &&& s[REG_CTXT as int] == outer_sum(c, plain, n1, k, m)
        }),
    decreases k, n1,
{
    let spare: bool = slots != 2 * dim;
    let start = initial_registers(v, (REG_ROT + n1) as nat, slots);
    let c = prepared(v, dim, slots, m);
    let before = inner_program(n1, dim, spare, k, (n1 - 1) as nat);
    lemma_run_inner(v, plain, n1, dim, slots, k, (n1 - 1) as nat, m);
    lemma_mul_nonnegative(k as int, n1 as int);
    let s0 = run(before, start, plain, m);
    if k == 0 {
        let last = Instruction::Move { dst: REG_CTXT, src: REG_INNER };
        lemma_run_push(before, last, start, plain, m);
        let s1 = run(before.push(last), start, plain, m);
        assert forall|t: int| 0 <= t <= n1 - 1 implies #[trigger] s1[REG_ROT + t]
            == iterated_rotation(c, t as nat) by {
            assert(s0[REG_ROT + t] == iterated_rotation(c, t as nat));
        }
    } else {
        let turn = Instruction::Rotate { reg: REG_INNER, step: (k * n1) as i32 };
        let last = Instruction::Add { dst: REG_CTXT, src: REG_INNER };
        lemma_run_push(before, turn, start, plain, m);
        lemma_run_push(before.push(turn), last, start, plain, m);
        let s2 = run(before.push(turn).push(last), start, plain, m);
        assert forall|t: int| 0 <= t <= n1 - 1 implies #[trigger] s2[REG_ROT + t]
            == iterated_rotation(c, t as nat) by {
            assert(s0[REG_ROT + t] == iterated_rotation(c, t as nat));
        }
    }
}

/// What the instructions of a product leave in register 0: the sums of
/// the giant steps, each rotated by its multiple of `n1`, of the rotated
/// copies of the prepared ciphertext times the plaintexts.
pub proof fn lemma_program_result(
    v: Seq<int>,
    plain: Seq<Seq<int>>,
    n1: nat,
    n2: nat,
    slots: nat,
    m: int,
)
    requires
        valid_shape(n1 * n2, n1, n2, slots),
    ensures
        run(bsgs_program(n1, n2, slots), initial_registers(v, (REG_ROT + n1) as nat, slots), plain, m)[0]
            == outer_sum(prepared(v, n1 * n2, slots, m), plain, n1, (n2 - 1) as nat, m),
{
    assert(n1 >= 1 && n2 >= 1 && n1 <= n1 * n2 && (n2 - 1) * n1 + n1 == n1 * n2) by (nonlinear_arith)
        requires
            1 <= n1 * n2,
    ;
    lemma_run_giant(v, plain, n1, n1 * n2, slots, (n2 - 1) as nat, m);
}

/// A rotation by `step` brings to a slot of the first row the value
/// `step` columns to its right, cyclically.
pub proof fn lemma_rotated_first_row(c: Seq<int>, step: int, i: int)
    requires
        0 <= i < c.len() / 2,
    ensures
        rotated(c, step).len() == c.len(),
        0 <= (i + step) % ((c.len() / 2) as int) < c.len() / 2,
        rotated(c, step)[i] == c[(i + step) % ((c.len() / 2) as int)],
{
    lemma_mod_bound(i + step, (c.len() / 2) as int);
}

/// `j` rotations by one bring to a slot of the first row the value `j`
/// columns to its right, cyclically.
pub proof fn lemma_iterated_rotation(c: Seq<int>, j: nat, i: int)
    requires
        0 <= i < c.len() / 2,
    ensures
        iterated_rotation(c, j).len() == c.len(),
        0 <= (i + j) % ((c.len() / 2) as int) < c.len() / 2,
        iterated_rotation(c, j)[i] == c[(i + j) % ((c.len() / 2) as int)],
    decreases j,
{
    let half: int = (c.len() / 2) as int;
    lemma_mod_bound(i + j, half);
    if j == 0 {
        lemma_small_mod(i as nat, half as nat);
    } else {
        let before = iterated_rotation(c, (j - 1) as nat);
        let next: int = (i + 1) % half;
        lemma_mod_bound(i + 1, half);
        lemma_iterated_rotation(c, (j - 1) as nat, next);
        lemma_rotated_first_row(before, 1, i);
        lemma_congruent_mod(i + 1, half);
        lemma_congruent_add(next, i + 1, j - 1, j - 1, half);
    }
}

/// Rotations keep the number of slots.
pub proof fn lemma_iterated_rotation_len(c: Seq<int>, j: nat)
    ensures
        iterated_rotation(c, j).len() == c.len(),
    decreases j,
{
    if j > 0 {
        lemma_iterated_rotation_len(c, (j - 1) as nat);
    }
}

/// The term `j` of the sum of giant step `k` at slot `q`.
pub open spec fn inner_term(c: Seq<int>, plain: Seq<Seq<int>>, n1: nat, k: nat, q: int) -> spec_fn(
    int,
) -> int {
    |j: int| iterated_rotation(c, j as nat)[q] * plain[k * n1 + j][q]
}

/// The sum of a giant step, slot by slot.
pub proof fn lemma_inner_sum(
    c: Seq<int>,
    plain: Seq<Seq<int>>,
    n1: nat,
    k: nat,
    j: nat,
    m: int,
    q: int,
)
    requires
        m > 0,
        0 <= q < c.len(),
    ensures
        inner_sum(c, plain, n1, k, j, m).len() == c.len(),
        0 <= inner_sum(c, plain, n1, k, j, m)[q] < m,
        congruent(inner_sum(c, plain, n1, k, j, m)[q], sum(inner_term(c, plain, n1, k, q), j + 1), m),
    decreases j,
{
    let f = inner_term(c, plain, n1, k, q);
    lemma_mul_nonnegative(k as int, n1 as int);
    lemma_iterated_rotation_len(c, j);
    if j == 0 {
        assert(sum(f, 1) == sum(f, 0) + f(0));
        assert(iterated_rotation(c, 0) == c);
        lemma_congruent_mod(c[q] * plain[(k * n1) as int][q], m);
        assert(k * n1 + 0 == k * n1);
    } else {
        lemma_inner_sum(c, plain, n1, k, (j - 1) as nat, m, q);
        let before: int = inner_sum(c, plain, n1, k, (j - 1) as nat, m)[q];
        let product: int = iterated_rotation(c, j)[q] * plain[(k * n1 + j) as int][q];
        lemma_congruent_mod(product, m);
        lemma_congruent_mod(before + product % m, m);
        lemma_congruent_add(before, sum(f, j), product % m, product, m);
        assert(sum(f, j + 1) == sum(f, j) + f(j as int));
    }
}

/// The term `k` of the result at slot `i` of the first row: the sum of
/// giant step `k` at the slot `k n1` columns to the right.
pub open spec fn outer_term(c: Seq<int>, plain: Seq<Seq<int>>, n1: nat, i: int, m: int) -> spec_fn(
    int,
) -> int {
    |k: int|
        inner_sum(c, plain, n1, k as nat, (n1 - 1) as nat, m)[(i + k * n1) % ((c.len() / 2) as int)]
}

/// The result, slot by slot in the first row.
pub proof fn lemma_outer_sum(
    c: Seq<int>,
    plain: Seq<Seq<int>>,
    n1: nat,
    k: nat,
    m: int,
    i: int,
)
    requires
        m > 0,
        0 <= i < c.len() / 2,
    ensures
        outer_sum(c, plain, n1, k, m).len() == c.len(),
        0 <= outer_sum(c, plain, n1, k, m)[i] < m,
        congruent(outer_sum(c, plain, n1, k, m)[i], sum(outer_term(c, plain, n1, i, m), k + 1), m),
    decreases k,
{
    let half: int = (c.len() / 2) as int;
    let f = outer_term(c, plain, n1, i, m);
    let inner = inner_sum(c, plain, n1, k, (n1 - 1) as nat, m);
    lemma_inner_sum(c, plain, n1, k, (n1 - 1) as nat, m, i);
    lemma_mul_nonnegative(k as int, n1 as int);
    if k == 0 {
        assert(sum(f, 1) == sum(f, 0) + f(0));
        assert(0 * n1 == 0);
        lemma_small_mod(i as nat, half as nat);
    } else {
        lemma_outer_sum(c, plain, n1, (k - 1) as nat, m, i);
        lemma_rotated_first_row(inner, (k * n1) as int, i);
        let before: int = outer_sum(c, plain, n1, (k - 1) as nat, m)[i];
        let turned: int = inner[(i + k * n1) % half];
        lemma_inner_sum(c, plain, n1, k, (n1 - 1) as nat, m, (i + k * n1) % half);
        lemma_congruent_mod(before + turned, m);
        lemma_congruent_add(before, sum(f, k), turned, turned, m);
        assert(sum(f, k + 1) == sum(f, k) + f(k as int));
    }
}

/// The function `j -> f(j + offset)`.
pub open spec fn shifted(f: spec_fn(int) -> int, offset: int) -> spec_fn(int) -> int {
    |j: int| f(j + offset)
}

/// The function `k -> f(k width) + ... + f(k width + width - 1)`.
pub open spec fn block_sums(f: spec_fn(int) -> int, width: nat) -> spec_fn(int) -> int {
    |k: int| sum(shifted(f, k * width), width)
}

/// A sum over `count` blocks of `width` terms is the sum of the sums of
/// the blocks.
pub proof fn lemma_sum_blocks(f: spec_fn(int) -> int, width: nat, count: nat)
    ensures
        0 <= count * width,
        sum(block_sums(f, width), count) == sum(f, count * width),
    decreases count,
{
    lemma_mul_nonnegative(count as int, width as int);
    if count == 0 {
        assert(0 * width == 0);
    } else {
        let before: nat = ((count - 1) * width) as nat;
        lemma_mul_nonnegative((count - 1) as int, width as int);
        lemma_sum_blocks(f, width, (count - 1) as nat);
        assert(count * width == before + width) by (nonlinear_arith)
            requires
                before == (count - 1) * width,
        ;
        let tail = shifted(f, before as int);
        assert forall|j: int| 0 <= j < width implies #[trigger] at(tail, j) == at(f, j + before) by {
        }
        lemma_sum_split(f, tail, before, width);
        assert(at(block_sums(f, width), count - 1) == sum(tail, width));
    }
}

/// The prepared ciphertext holds the vector twice over: at the slot of a
/// column `p` below twice the dimension, taken cyclically in the row,
/// stands the vector's entry `p mod dim`.
pub proof fn lemma_prepared(v: Seq<int>, dim: nat, slots: nat, m: int, p: int)
    requires
        m > 1,
        1 <= dim,
        fully_packed(dim, slots) || spare_packed(dim, slots),
        v.len() == dim,
        reduced(v, m),
        0 <= p < 2 * dim,
    ensures
        prepared(v, dim, slots, m).len() == slots,
        0 <= p % ((slots / 2) as int) < slots / 2,
        0 <= p % (dim as int) < dim,
        prepared(v, dim, slots, m)[p % ((slots / 2) as int)] == v[p % (dim as int)],
{
    let half: int = (slots / 2) as int;
    let d: int = dim as int;
    lemma_mod_bound(p, half);
    lemma_mod_bound(p, d);
    let base = packed(v, slots);
    if slots == 2 * dim {
        assert(half == d);
    } else {
        assert(2 * d <= half);
        lemma_small_mod(p as nat, half as nat);
        let turned = rotated(base, -d);
        lemma_rotated_first_row(base, -d, p);
        if p < d {
            lemma_small_mod(p as nat, dim);
            lemma_fundamental_div_mod_converse(p - d, half, -1, p - d + half);
            assert(turned[p] == 0);
            lemma_small_mod(v[p] as nat, m as nat);
        } else {
            lemma_fundamental_div_mod_converse(p, d, 1, p - d);
            lemma_small_mod((p - d) as nat, half as nat);
            assert(turned[p] == v[p - d]);
            assert(base[p] == 0);
            lemma_small_mod(v[p - d] as nat, m as nat);
        }
    }
}

/// The term of row `i` of the product that belongs to diagonal `t`: the
/// entry in column `(t + i) mod dim` times the vector's entry there.
pub open spec fn diagonal_term<T: SquareMatrix>(matrix: &T, v: Seq<int>, i: int) -> spec_fn(
    int,
) -> int {
    |t: int| at(product_term(matrix, v, i), (t + i) % (block_dimension(matrix) as int))
}

/// The plaintexts are those of the matrix's rows.
pub open spec fn plaintexts_of<T: SquareMatrix>(
    plaintexts: Seq<Vec<FieldElement>>,
    matrix: &T,
    n1: nat,
    slots: nat,
) -> bool {
    &&& plaintexts.len() == block_dimension(matrix)
    &&& forall|t: int|
        0 <= t < plaintexts.len() ==> (#[trigger] plaintexts[t])@ == diagonal_spec(
            matrix,
            t,
            n1 as int,
            !fully_packed(block_dimension(matrix), slots),
        )
}

/// The term `j` of giant step `k`, at the slot where the result's slot
/// `i` takes it from, is the term of diagonal `k n1 + j` of row `i` of
/// the product.
proof fn lemma_term<T: SquareMatrix>(
    matrix: &T,
    plaintexts: Seq<Vec<FieldElement>>,
    v: Seq<int>,
    n1: nat,
    n2: nat,
    slots: nat,
    i: int,
    k: nat,
    j: nat,
)
    requires
        valid_shape(block_dimension(matrix), n1, n2, slots),
        plaintexts_of(plaintexts, matrix, n1, slots),
        v.len() == block_dimension(matrix),
        reduced(v, modulus()),
        0 <= i < block_dimension(matrix),
        k < n2,
        j < n1,
    ensures
        ({
            let dim = block_dimension(matrix);
            let c = prepared(v, dim, slots, modulus());
            let plain = packed_plaintexts(plaintexts, slots);
            let q = (i + k * n1) % ((slots / 2) as int);
            &&& c.len() == slots
            &&& 0 <= q < slots / 2
            &&& at(inner_term(c, plain, n1, k, q), j as int) == at(
                diagonal_term(matrix, v, i),
                (k * n1 + j) as int,
            )
        }),
{
    let m: int = modulus();
    let dim: nat = block_dimension(matrix);
    let d: int = dim as int;
    let half: int = (slots / 2) as int;
    let spare: bool = slots != 2 * dim;
    let c = prepared(v, dim, slots, m);
    let plain = packed_plaintexts(plaintexts, slots);
    let shift: int = (k * n1) as int;
    let number: int = shift + j;
    let q: int = (i + shift) % half;
    let p: int = i + number;
    lemma_mul_nonnegative(k as int, n1 as int);
    assert(shift + n1 <= d) by (nonlinear_arith)
        requires
            shift == k * n1,
            k < n2,
            d == n1 * n2,
    ;
    lemma_mod_bound(i + shift, half);
    lemma_prepared(v, dim, slots, m, p);
    // the rotated copy
    lemma_iterated_rotation(c, j, q);
    lemma_congruent_mod(i + shift, half);
    lemma_congruent_add(q, i + shift, j as int, j as int, half);
    assert(iterated_rotation(c, j)[q] == v[p % d]);
    // the plaintext
    lemma_fundamental_div_mod_converse(number, n1 as int, k as int, j as int);
    let diag = diagonal_spec(matrix, number, n1 as int, spare);
    assert(plaintexts[number]@ == diag);
    assert(plain[number] == packed(values(plaintexts[number]@), slots));
    assert(number / (n1 as int) * n1 == shift);
    if spare {
        lemma_small_mod((i + shift) as nat, half as nat);
        assert(q == i + shift);
        assert(diag.len() == d + shift);
        assert(diag[q] == block_entry(matrix, q - shift, (number + q - shift) % d));
        assert(plain[number][q] == diag[q].value());
    } else {
        assert(half == d);
        assert(diag.len() == d);
        // (q + dim - shift) mod dim is i
        lemma_congruent_add(q, i + shift, d - shift, d - shift, d);
        lemma_fundamental_div_mod_converse(i + d, d, 1, i);
        let row: int = (q + d - shift) % d;
        assert(row == i);
        assert(diag[q] == block_entry(matrix, row, (number + row) % d));
        assert(plain[number][q] == diag[q].value());
    }
    assert(plain[number][q] == block_entry(matrix, i, p % d).value());
    lemma_mul_is_commutative(v[p % d], block_entry(matrix, i, p % d).value());
    assert(plain[(k * n1 + j) as int] == plain[number]);
}

/// In the plain model the instructions of the product, with the
/// plaintexts of the matrix's rows, leave in slot `i` of register 0 the
/// entry `i` of the product of the matrix and the vector, for every `i`
/// below the dimension.
pub proof fn lemma_bsgs_computes_product<T: SquareMatrix>(
    matrix: &T,
    plaintexts: Seq<Vec<FieldElement>>,
    v: Seq<int>,
    n1: nat,
    n2: nat,
    slots: nat,
    i: int,
)
    requires
        valid_shape(block_dimension(matrix), n1, n2, slots),
        plaintexts_of(plaintexts, matrix, n1, slots),
        v.len() == block_dimension(matrix),
        reduced(v, modulus()),
        0 <= i < block_dimension(matrix),
    ensures
        run(
            bsgs_program(n1, n2, slots),
            initial_registers(v, (REG_ROT + n1) as nat, slots),
            packed_plaintexts(plaintexts, slots),
            modulus(),
        )[0][i] == matrix_vector(matrix, v, modulus())[i],
{
    let m: int = modulus();
    let dim: nat = block_dimension(matrix);
    let d: int = dim as int;
    let half: int = (slots / 2) as int;
    let c = prepared(v, dim, slots, m);
    let plain = packed_plaintexts(plaintexts, slots);
    assert(n1 >= 1 && n2 >= 1) by (nonlinear_arith)
        requires
            1 <= n1 * n2,
    ;
    lemma_program_result(v, plain, n1, n2, slots, m);
    lemma_prepared(v, dim, slots, m, 0);
    assert(d <= half);
    lemma_outer_sum(c, plain, n1, (n2 - 1) as nat, m, i);
    let result: int = outer_sum(c, plain, n1, (n2 - 1) as nat, m)[i];
    let outer = outer_term(c, plain, n1, i, m);
    let by_diagonal = diagonal_term(matrix, v, i);
    let blocks = block_sums(by_diagonal, n1);
    // every giant step's sum is the sum of a block of diagonals
    assert forall|k: int| 0 <= k < n2 implies congruent(#[trigger] at(outer, k), at(blocks, k), m) by {
        let q: int = (i + k * n1) % half;
        lemma_term(matrix, plaintexts, v, n1, n2, slots, i, k as nat, 0);
        lemma_inner_sum(c, plain, n1, k as nat, (n1 - 1) as nat, m, q);
        let inner = inner_term(c, plain, n1, k as nat, q);
        let block = shifted(by_diagonal, k * n1);
        assert forall|j: int| 0 <= j < n1 implies #[trigger] at(inner, j) == at(block, j) by {
            lemma_term(matrix, plaintexts, v, n1, n2, slots, i, k as nat, j as nat);
            assert(j + k * n1 == k * n1 + j);
        }
        lemma_sum_ext(inner, block, n1);
    }
    lemma_sum_congruent(outer, blocks, n2, m);
    lemma_sum_blocks(by_diagonal, n1, n2);
    lemma_mul_is_commutative(n1 as int, n2 as int);
    // the diagonals of a row are its columns, taken cyclically
    let by_column = product_term(matrix, v, i);
    let back: int = if i == 0 {
        0
    } else {
        d - i
    };
    assert forall|t: int| 0 <= t < dim implies #[trigger] at(by_diagonal, t) == at(
        by_column,
        (t - back) % d,
    ) by {
        if i != 0 {
            lemma_congruent_mod(t + i - d, d);
            lemma_mod_bound(t + i, d);
            lemma_mod_bound(t + i - d, d);
            vstd::arithmetic::div_mod::lemma_mod_add_multiples_vanish(t + i - d, d);
        }
    }
    lemma_sum_rotation(by_column, by_diagonal, back, dim);
    lemma_congruent_canonical(result, sum(by_column, dim), m);
}

/// The product of a count and a width.
pub open spec fn multiple(count: int, width: int) -> int {
    count * width
}

/// `step` is the step of one of the giant steps 1 to `upto`.
pub open spec fn giant_step(step: int, n1: nat, upto: nat) -> bool {
    exists|k: int| 1 <= k <= upto && step == #[trigger] multiple(k, n1 as int)
}

/// `step` is a step of the instructions up to the rotated copy `j`.
pub open spec fn baby_step(step: int, dim: nat, spare: bool, j: nat) -> bool {
    (spare && step == -(dim as int)) || (j >= 1 && step == 1)
}

/// The steps of the instructions up to the rotated copy `j`, and that
/// those instructions name registers that are there.
pub proof fn lemma_requests_baby(n1: nat, dim: nat, spare: bool, j: nat, step: int)
    requires
        1 <= dim <= MAX_DIMENSION,
        j < n1 <= dim,
    ensures
        requests(baby_program(dim, spare, j), step) <==> baby_step(step, dim, spare, j),
        well_formed(baby_program(dim, spare, j), (REG_ROT + n1) as nat, dim),
    decreases j,
{
    let regs: nat = (REG_ROT + n1) as nat;
    if j == 0 {
        let first = Instruction::Copy { dst: REG_ROT, src: REG_CTXT };
        let prelude = prelude_program(dim, spare);
        lemma_requests_push(prelude, first, step);
        if spare {
            let i1 = Instruction::Copy { dst: REG_TMP, src: REG_CTXT };
            let i2 = Instruction::Rotate { reg: REG_TMP, step: (-(dim as int)) as i32 };
            let i3 = Instruction::Add { dst: REG_CTXT, src: REG_TMP };
            let e = Seq::<Instruction>::empty();
            assert(prelude =~= e.push(i1).push(i2).push(i3));
            lemma_requests_push(e.push(i1).push(i2), i3, step);
            lemma_requests_push(e.push(i1), i2, step);
            lemma_requests_push(e, i1, step);
            assert(!requests(e, step));
        } else {
            assert(!requests(prelude, step));
        }
        lemma_well_formed_push(prelude, first, regs, dim);
    } else {
        let before = baby_program(dim, spare, (j - 1) as nat);
        let copy = Instruction::Copy { dst: (REG_ROT + j) as usize, src: (REG_ROT + j - 1) as usize };
        let turn = Instruction::Rotate { reg: (REG_ROT + j) as usize, step: 1 };
        lemma_requests_baby(n1, dim, spare, (j - 1) as nat, step);
        lemma_requests_push(before, copy, step);
        lemma_requests_push(before.push(copy), turn, step);
        lemma_well_formed_push(before, copy, regs, dim);
        lemma_well_formed_push(before.push(copy), turn, regs, dim);
    }
}

/// A well-formed program with one more well-formed instruction is well
/// formed.
pub proof fn lemma_well_formed_push(
    program: Seq<Instruction>,
    ins: Instruction,
    registers: nat,
    plaintexts: nat,
)
    requires
        well_formed(program, registers, plaintexts),
        instruction_ok(ins, registers, plaintexts),
    ensures
        well_formed(program.push(ins), registers, plaintexts),
{
    let longer = program.push(ins);
    assert forall|idx: int| 0 <= idx < longer.len() implies instruction_ok(
        #[trigger] longer[idx],
        registers,
        plaintexts,
    ) by {
        if idx < program.len() {
            assert(longer[idx] == program[idx]);
        }
    }
}

/// The steps of the instructions up to the term `j` of giant step `k`.
pub proof fn lemma_requests_inner(
    n1: nat,
    dim: nat,
    spare: bool,
    k: nat,
    j: nat,
    step: int,
)
    requires
        1 <= dim <= MAX_DIMENSION,
        1 <= n1 <= dim,
        j < n1,
        k * n1 + n1 <= dim,
    ensures
        requests(inner_program(n1, dim, spare, k, j), step) <==> baby_step(
            step,
            dim,
            spare,
            (n1 - 1) as nat,
        ) || (k > 0 && giant_step(step, n1, (k - 1) as nat)),
        well_formed(inner_program(n1, dim, spare, k, j), (REG_ROT + n1) as nat, dim),
    decreases k, j,
{
    let regs: nat = (REG_ROT + n1) as nat;
    lemma_mul_nonnegative(k as int, n1 as int);
    if j == 0 {
        let before = if k == 0 {
            baby_program(dim, spare, (n1 - 1) as nat)
        } else {
            giant_program(n1, dim, spare, (k - 1) as nat)
        };
        let first = Instruction::MulPlain {
            dst: REG_INNER,
            src: REG_ROT,
            plaintext: (k * n1) as usize,
        };
        if k == 0 {
            lemma_requests_baby(n1, dim, spare, (n1 - 1) as nat, step);
        } else {
            assert((k - 1) * n1 + n1 <= dim) by (nonlinear_arith)
                requires
                    k * n1 + n1 <= dim,
                    k >= 1,
            ;
            lemma_requests_giant(n1, dim, spare, (k - 1) as nat, step);
        }
        lemma_requests_push(before, first, step);
        lemma_well_formed_push(before, first, regs, dim);
    } else {
        let before = inner_program(n1, dim, spare, k, (j - 1) as nat);
        let product = Instruction::MulPlain {
            dst: REG_TMP,
            src: (REG_ROT + j) as usize,
            plaintext: (k * n1 + j) as usize,
        };
        let sum = Instruction::Add { dst: REG_INNER, src: REG_TMP };
        lemma_requests_inner(n1, dim, spare, k, (j - 1) as nat, step);
        lemma_requests_push(before, product, step);
        lemma_requests_push(before.push(product), sum, step);
        lemma_well_formed_push(before, product, regs, dim);
        lemma_well_formed_push(before.push(product), sum, regs, dim);
    }
}

/// The steps of the instructions up to the end of giant step `k`.
pub proof fn lemma_requests_giant(n1: nat, dim: nat, spare: bool, k: nat, step: int)
    requires
        1 <= dim <= MAX_DIMENSION,
        1 <= n1 <= dim,
        k * n1 + n1 <= dim,
    ensures
        requests(giant_program(n1, dim, spare, k), step) <==> baby_step(
            step,
            dim,
            spare,
            (n1 - 1) as nat,
        ) || giant_step(step, n1, k),
        well_formed(giant_program(n1, dim, spare, k), (REG_ROT + n1) as nat, dim),
    decreases k, n1,
{
    let regs: nat = (REG_ROT + n1) as nat;
    let before = inner_program(n1, dim, spare, k, (n1 - 1) as nat);
    lemma_requests_inner(n1, dim, spare, k, (n1 - 1) as nat, step);
    lemma_mul_nonnegative(k as int, n1 as int);
    if k == 0 {
        let last = Instruction::Move { dst: REG_CTXT, src: REG_INNER };
        lemma_requests_push(before, last, step);
        lemma_well_formed_push(before, last, regs, dim);
        assert(!giant_step(step, n1, 0));
    } else {
        let turn = Instruction::Rotate { reg: REG_INNER, step: (k * n1) as i32 };
        let last = Instruction::Add { dst: REG_CTXT, src: REG_INNER };
        lemma_requests_push(before, turn, step);
        lemma_requests_push(before.push(turn), last, step);
        lemma_well_formed_push(before, turn, regs, dim);
        lemma_well_formed_push(before.push(turn), last, regs, dim);
        assert(is_rotation_by(turn, step) <==> step == multiple(k as int, n1 as int));
        if giant_step(step, n1, k) {
            let w = choose|w: int| 1 <= w <= k && step == #[trigger] multiple(w, n1 as int);
            if w < k {
                assert(giant_step(step, n1, (k - 1) as nat));
            }
        }
        if giant_step(step, n1, (k - 1) as nat) {
            let w = choose|w: int| 1 <= w <= k - 1 && step == #[trigger] multiple(w, n1 as int);
            assert(1 <= w <= k && step == multiple(w, n1 as int));
        }
    }
}

/// The steps that `bsgs_indices` lists.
pub proof fn lemma_indices(n1: nat, n2: nat, slots: nat, step: int)
    requires
        n1 >= 1,
        n2 >= 1,
    ensures
        indices_spec(n1, n2, slots).contains(step) <==> baby_step(
            step,
            n1 * n2,
            slots != 2 * (n1 * n2),
            (n1 - 1) as nat,
        ) || giant_step(step, n1, (n2 - 1) as nat),
{
    let dim: nat = n1 * n2;
    let baby: Seq<int> = if n1 > 1 {
        seq![1int]
    } else {
        Seq::<int>::empty()
    };
    let giant: Seq<int> = Seq::new((n2 - 1) as nat, |k: int| (k + 1) * n1);
    let back: Seq<int> = if slots != 2 * dim {
        seq![-(dim as int)]
    } else {
        Seq::<int>::empty()
    };
    let front = baby + giant;
    let all = front + back;
    assert(all == indices_spec(n1, n2, slots));
    assert(front.len() == baby.len() + giant.len());
    assert(all.len() == front.len() + back.len());
    let expected: bool = baby_step(step, dim, slots != 2 * dim, (n1 - 1) as nat) || giant_step(
        step,
        n1,
        (n2 - 1) as nat,
    );
    if all.contains(step) {
        let idx = choose|idx: int| 0 <= idx < all.len() && all[idx] == step;
        if idx < baby.len() {
            assert(all[idx] == front[idx]);
            assert(front[idx] == baby[idx]);
            assert(step == 1 && n1 > 1);
        } else if idx < front.len() {
            let k: int = idx - baby.len();
            assert(all[idx] == front[idx]);
            assert(front[idx] == giant[k]);
            assert(step == multiple(k + 1, n1 as int));
            assert(giant_step(step, n1, (n2 - 1) as nat));
        } else {
            assert(all[idx] == back[idx - front.len()]);
            assert(step == -(dim as int) && slots != 2 * dim);
        }
        assert(expected);
    }
    if expected {
        if n1 > 1 && step == 1 {
            assert(all[0] == front[0]);
            assert(front[0] == baby[0]);
            assert(all[0] == step);
        } else if slots != 2 * dim && step == -(dim as int) {
            assert(all[front.len() as int] == back[0]);
            assert(all[front.len() as int] == step);
        } else {
            assert(giant_step(step, n1, (n2 - 1) as nat));
            let w = choose|w: int| 1 <= w <= n2 - 1 && step == #[trigger] multiple(w, n1 as int);
            assert(giant[w - 1] == step);
            assert(front[baby.len() + w - 1] == giant[w - 1]);
            assert(all[baby.len() + w - 1] == front[baby.len() + w - 1]);
            assert(all[baby.len() + w - 1] == step);
        }
        assert(all.contains(step));
    }
}

/// `bsgs_indices` lists no step twice.
pub proof fn lemma_indices_distinct(n1: nat, n2: nat, slots: nat)
    requires
        n1 >= 1,
        n2 >= 1,
    ensures
        indices_spec(n1, n2, slots).no_duplicates(),
{
    let dim: nat = n1 * n2;
    let baby: Seq<int> = if n1 > 1 {
        seq![1int]
    } else {
        Seq::<int>::empty()
    };
    let giant: Seq<int> = Seq::new((n2 - 1) as nat, |k: int| (k + 1) * n1);
    let back: Seq<int> = if slots != 2 * dim {
        seq![-(dim as int)]
    } else {
        Seq::<int>::empty()
    };
    let front = baby + giant;
    let all = front + back;
    assert(all == indices_spec(n1, n2, slots));
    assert(front.len() == baby.len() + giant.len());
    assert(all.len() == front.len() + back.len());
    lemma_mul_nonnegative(n1 as int, n2 as int);
    // what stands at a place: one, a positive multiple of n1, or a
    // negative number
    assert forall|i: int, j: int| 0 <= i < j < all.len() implies all[i] != all[j] by {
        let gi: int = i - baby.len();
        let gj: int = j - baby.len();
        if i < front.len() {
            assert(all[i] == front[i]);
        }
        if j < front.len() {
            assert(all[j] == front[j]);
        }
        if baby.len() <= i < front.len() {
            assert(front[i] == giant[gi]);
            assert(all[i] == (gi + 1) * n1);
            assert((gi + 1) * n1 >= n1) by (nonlinear_arith)
                requires
                    gi >= 0,
                    n1 >= 1,
            ;
        }
        if baby.len() <= j < front.len() {
            assert(front[j] == giant[gj]);
            assert(all[j] == (gj + 1) * n1);
            assert((gj + 1) * n1 >= n1) by (nonlinear_arith)
                requires
                    gj >= 0,
                    n1 >= 1,
            ;
        }
        if i < baby.len() {
            assert(front[i] == baby[i]);
            assert(all[i] == 1 && n1 >= 2);
        }
        if j >= front.len() {
            assert(all[j] == back[j - front.len()]);
            assert(all[j] == -(dim as int));
            assert(dim >= 1) by (nonlinear_arith)
                requires
                    dim == n1 * n2,
                    n1 >= 1,
                    n2 >= 1,
            ;
        }
        if baby.len() <= i && j < front.len() {
            assert((gi + 1) * n1 < (gj + 1) * n1) by (nonlinear_arith)
                requires
                    gi < gj,
                    n1 >= 1,
            ;
        }
    }
}

/// Step zero is none of the steps that `bsgs_indices` lists, so that
/// the list with step zero behind it lists no step twice either.
pub proof fn lemma_indices_with_zero(n1: nat, n2: nat, slots: nat)
    requires
        n1 >= 1,
        n2 >= 1,
    ensures
        !indices_spec(n1, n2, slots).contains(0),
        (indices_spec(n1, n2, slots) + seq![0int]).no_duplicates(),
{
    let list = indices_spec(n1, n2, slots);
    lemma_indices(n1, n2, slots, 0);
    lemma_indices_distinct(n1, n2, slots);
    assert(n1 * n2 >= 1) by (nonlinear_arith)
        requires
            n1 >= 1,
            n2 >= 1,
    ;
    if giant_step(0, n1, (n2 - 1) as nat) {
        let w = choose|w: int| 1 <= w <= n2 - 1 && 0 == #[trigger] multiple(w, n1 as int);
        assert(w * n1 >= 1) by (nonlinear_arith)
            requires
                w >= 1,
                n1 >= 1,
        ;
    }
    let longer = list + seq![0int];
    assert forall|i: int, j: int| 0 <= i < j < longer.len() implies longer[i] != longer[j] by {
        assert(longer[i] == list[i]);
        if j < list.len() {
            assert(longer[j] == list[j]);
        } else {
            assert(longer[j] == 0);
            assert(list.contains(list[i]));
        }
    }
}

/// The steps that the instructions of a product ask for are exactly the
/// steps that `bsgs_indices` lists, and the instructions name only
/// registers and plaintexts that are there.
pub proof fn lemma_keys_exact(n1: nat, n2: nat, slots: nat, step: int)
    requires
        valid_shape(n1 * n2, n1, n2, slots),
    ensures
        requests(bsgs_program(n1, n2, slots), step) <==> indices_spec(n1, n2, slots).contains(
            step,
        ),
        well_formed(bsgs_program(n1, n2, slots), (REG_ROT + n1) as nat, n1 * n2),
{
    assert(n1 >= 1 && n2 >= 1 && n1 <= n1 * n2 && (n2 - 1) * n1 + n1 == n1 * n2) by (nonlinear_arith)
        requires
            1 <= n1 * n2,
    ;
    lemma_requests_giant(n1, n1 * n2, slots != 2 * (n1 * n2), (n2 - 1) as nat, step);
    lemma_indices(n1, n2, slots, step);
}

/// With a key for every step that `bsgs_indices` lists, the engine
/// carries the instructions of a product out; with a step of the list
/// left without a key it refuses them, for want of a key.
pub proof fn lemma_keys_suffice(n1: nat, n2: nat, slots: nat, keys: Seq<i32>)
    requires
        valid_shape(n1 * n2, n1, n2, slots),
    ensures
        first_refusal(bsgs_program(n1, n2, slots), (REG_ROT + n1) as nat, n1 * n2, keys) is None
            <==> (forall|step: i32|
            indices_spec(n1, n2, slots).contains(step as int) ==> #[trigger] keys.contains(step)),
        first_refusal(
            bsgs_program(n1, n2, slots),
            (REG_ROT + n1) as nat,
            n1 * n2,
            keys,
        ) matches Some(e) ==> exists|step: i32|
            e == (Error::MissingKey { step }) && indices_spec(n1, n2, slots).contains(step as int)
                && !#[trigger] keys.contains(step),
{
    let program = bsgs_program(n1, n2, slots);
    lemma_keys_exact(n1, n2, slots, 0);
    lemma_refusal(program, (REG_ROT + n1) as nat, n1 * n2, keys);
    assert forall|step: i32|
        requests(program, step as int) <==> indices_spec(n1, n2, slots).contains(step as int) by {
        lemma_keys_exact(n1, n2, slots, step as int);
    }
}

/// The product of the matrix of a transform with a vector is the
/// transform of the vector: evaluated on a ciphertext, the matrix of the
/// transform transforms what the ciphertext holds.
pub proof fn lemma_fft_matrix_product(matrix: &FFTMatrix, v: Seq<int>, i: int)
    requires
        matrix.wf(),
        matrix.row_offset() == 0,
        matrix.col_offset() == 0,
        primitive_root(matrix.root_value(), matrix.underlying_size(), modulus()),
        v.len() == matrix.underlying_size(),
        0 <= i < matrix.underlying_size(),
    ensures
        block_dimension(matrix) == matrix.underlying_size(),
        matrix_vector(matrix, v, modulus())[i] == dft(v, matrix.root_value(), modulus())[i],
{
    let m: int = modulus();
    let n: nat = matrix.underlying_size();
    let w: int = matrix.root_value();
    let f = product_term(matrix, v, i);
    let g = dft_term(v, w, i);
    lemma_root_order(w, n, m);
    assert forall|c: int| 0 <= c < n implies congruent(#[trigger] at(f, c), at(g, c), m) by {
        matrix.lemma_entry(i, c);
        lemma_mul_nonnegative(i, c);
        lemma_mul_is_commutative(i, c);
        let e: nat = (i * c) as nat;
        lemma_pow_mod_order(w, n, e, m);
        lemma_congruent_mod(pow(w, e % n), m);
        lemma_congruent_mul(block_entry(matrix, i, c).value(), pow(w, e), v[c], v[c], m);
        lemma_mul_is_commutative(pow(w, e), v[c]);
    }
    lemma_sum_congruent(f, g, n, m);
}

} // verus!
