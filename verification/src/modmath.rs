//! Congruences and finite sums of integers.

use vstd::arithmetic::div_mod::{
    lemma_add_mod_noop, lemma_mul_mod_noop, lemma_small_mod, lemma_sub_mod_noop,
};
use vstd::arithmetic::mul::{lemma_mul_is_distributive_add, lemma_mul_is_distributive_add_other_way};
use vstd::arithmetic::power::{lemma_pow_mod_noop, pow};
use vstd::prelude::*;

verus! {

/// `a` and `b` leave the same remainder on division by `m`.
pub open spec fn congruent(a: int, b: int, m: int) -> bool {
    a % m == b % m
}

/// Congruent numbers have congruent sums.
pub proof fn lemma_congruent_add(a: int, b: int, c: int, d: int, m: int)
    requires
        m > 0,
        congruent(a, b, m),
        congruent(c, d, m),
    ensures
        congruent(a + c, b + d, m),
{
    lemma_add_mod_noop(a, c, m);
    lemma_add_mod_noop(b, d, m);
}

/// Congruent numbers have congruent differences.
pub proof fn lemma_congruent_sub(a: int, b: int, c: int, d: int, m: int)
    requires
        m > 0,
        congruent(a, b, m),
        congruent(c, d, m),
    ensures
        congruent(a - c, b - d, m),
{
    lemma_sub_mod_noop(a, c, m);
    lemma_sub_mod_noop(b, d, m);
}

/// Congruent numbers have congruent products.
pub proof fn lemma_congruent_mul(a: int, b: int, c: int, d: int, m: int)
    requires
        m > 0,
        congruent(a, b, m),
        congruent(c, d, m),
    ensures
        congruent(a * c, b * d, m),
{
    lemma_mul_mod_noop(a, c, m);
    lemma_mul_mod_noop(b, d, m);
}

/// Congruent numbers have congruent powers.
pub proof fn lemma_congruent_pow(a: int, b: int, e: nat, m: int)
    requires
        m > 0,
        congruent(a, b, m),
    ensures
        congruent(pow(a, e), pow(b, e), m),
{
    lemma_pow_mod_noop(a, e, m);
    lemma_pow_mod_noop(b, e, m);
}

/// A remainder is congruent to the number it was taken of.
pub proof fn lemma_congruent_mod(a: int, m: int)
    requires
        m > 0,
    ensures
        congruent(a % m, a, m),
        0 <= a % m < m,
{
    vstd::arithmetic::div_mod::lemma_mod_twice(a, m);
    vstd::arithmetic::div_mod::lemma_mod_bound(a, m);
}

/// A number in `[0, m)` that is congruent to `b` is the remainder of `b`.
pub proof fn lemma_congruent_canonical(a: int, b: int, m: int)
    requires
        m > 0,
        0 <= a < m,
        congruent(a, b, m),
    ensures
        a == b % m,
{
    lemma_small_mod(a as nat, m as nat);
}

/// The value of `f` at `i`.
pub open spec fn at(f: spec_fn(int) -> int, i: int) -> int {
    f(i)
}

/// The sum of `f(0), ..., f(n - 1)`.
pub open spec fn sum(f: spec_fn(int) -> int, n: nat) -> int
    decreases n,
{
    if n == 0 {
        0
    } else {
        sum(f, (n - 1) as nat) + f(n - 1)
    }
}

/// Sums of functions that agree on the range agree.
pub proof fn lemma_sum_ext(f: spec_fn(int) -> int, g: spec_fn(int) -> int, n: nat)
    requires
        forall|i: int| 0 <= i < n ==> #[trigger] at(f, i) == at(g, i),
    ensures
        sum(f, n) == sum(g, n),
    decreases n,
{
    if n > 0 {
        lemma_sum_ext(f, g, (n - 1) as nat);
        assert(at(f, n - 1) == at(g, n - 1));
    }
}

/// Sums of functions that are congruent on the range are congruent.
pub proof fn lemma_sum_congruent(f: spec_fn(int) -> int, g: spec_fn(int) -> int, n: nat, m: int)
    requires
        m > 0,
        forall|i: int| 0 <= i < n ==> congruent(#[trigger] at(f, i), at(g, i), m),
    ensures
        congruent(sum(f, n), sum(g, n), m),
    decreases n,
{
    if n > 0 {
        lemma_sum_congruent(f, g, (n - 1) as nat, m);
        assert(congruent(at(f, n - 1), at(g, n - 1), m));
        lemma_congruent_add(sum(f, (n - 1) as nat), sum(g, (n - 1) as nat), f(n - 1), g(n - 1), m);
    }
}

/// The sum of a pointwise sum is the sum of the sums.
pub proof fn lemma_sum_add(
    f: spec_fn(int) -> int,
    g: spec_fn(int) -> int,
    h: spec_fn(int) -> int,
    n: nat,
)
    requires
        forall|i: int| 0 <= i < n ==> #[trigger] at(h, i) == at(f, i) + at(g, i),
    ensures
        sum(h, n) == sum(f, n) + sum(g, n),
    decreases n,
{
    if n > 0 {
        lemma_sum_add(f, g, h, (n - 1) as nat);
        assert(at(h, n - 1) == at(f, n - 1) + at(g, n - 1));
    }
}

/// The sum of a pointwise difference is the difference of the sums.
pub proof fn lemma_sum_sub(
    f: spec_fn(int) -> int,
    g: spec_fn(int) -> int,
    h: spec_fn(int) -> int,
    n: nat,
)
    requires
        forall|i: int| 0 <= i < n ==> #[trigger] at(h, i) == at(f, i) - at(g, i),
    ensures
        sum(h, n) == sum(f, n) - sum(g, n),
    decreases n,
{
    if n > 0 {
        lemma_sum_sub(f, g, h, (n - 1) as nat);
        assert(at(h, n - 1) == at(f, n - 1) - at(g, n - 1));
    }
}

/// A common factor moves out of a sum.
pub proof fn lemma_sum_scale(c: int, f: spec_fn(int) -> int, h: spec_fn(int) -> int, n: nat)
    requires
        forall|i: int| 0 <= i < n ==> #[trigger] at(h, i) == c * at(f, i),
    ensures
        sum(h, n) == c * sum(f, n),
    decreases n,
{
    if n > 0 {
        lemma_sum_scale(c, f, h, (n - 1) as nat);
        assert(at(h, n - 1) == c * at(f, n - 1));
        lemma_mul_is_distributive_add(c, sum(f, (n - 1) as nat), f(n - 1));
    } else {
        assert(c * 0 == 0);
    }
}

/// The sum of a constant.
pub proof fn lemma_sum_constant(c: int, f: spec_fn(int) -> int, n: nat)
    requires
        forall|i: int| 0 <= i < n ==> #[trigger] at(f, i) == c,
    ensures
        sum(f, n) == n * c,
    decreases n,
{
    if n > 0 {
        lemma_sum_constant(c, f, (n - 1) as nat);
        assert(at(f, n - 1) == c);
        lemma_mul_is_distributive_add_other_way(c, (n - 1) as int, 1);
    } else {
        assert(0 * c == 0);
    }
}

/// A sum over `a + b` terms is the sum over the first `a` and over the
/// `b` that follow.
pub proof fn lemma_sum_split(f: spec_fn(int) -> int, tail: spec_fn(int) -> int, a: nat, b: nat)
    requires
        forall|i: int| 0 <= i < b ==> #[trigger] at(tail, i) == at(f, i + a),
    ensures
        sum(f, a + b) == sum(f, a) + sum(tail, b),
    decreases b,
{
    if b > 0 {
        lemma_sum_split(f, tail, a, (b - 1) as nat);
        assert(sum(f, a + b) == sum(f, (a + b - 1) as nat) + f(a + b - 1));
        assert(at(tail, b - 1) == at(f, b - 1 + a));
    }
}

/// A sum over `2 h` terms is the sum of the terms at even places and of
/// those at odd places.
pub proof fn lemma_sum_even_odd(
    f: spec_fn(int) -> int,
    even: spec_fn(int) -> int,
    odd: spec_fn(int) -> int,
    h: nat,
)
    requires
        forall|i: int| 0 <= i < h ==> #[trigger] at(even, i) == at(f, 2 * i),
        forall|i: int| 0 <= i < h ==> #[trigger] at(odd, i) == at(f, 2 * i + 1),
    ensures
        sum(f, 2 * h) == sum(even, h) + sum(odd, h),
    decreases h,
{
    if h > 0 {
        lemma_sum_even_odd(f, even, odd, (h - 1) as nat);
        assert(sum(f, 2 * h) == sum(f, (2 * h - 1) as nat) + f(2 * h - 1));
        assert(sum(f, (2 * h - 1) as nat) == sum(f, (2 * h - 2) as nat) + f(2 * h - 2));
        assert(at(even, h - 1) == at(f, 2 * (h - 1)));
        assert(at(odd, h - 1) == at(f, 2 * (h - 1) + 1));
    }
}

/// The function `j -> g(i, j)` of a function of two arguments.
pub open spec fn row_of(g: spec_fn(int, int) -> int, i: int) -> spec_fn(int) -> int {
    |j: int| g(i, j)
}

/// The function `i -> g(i, j)` of a function of two arguments.
pub open spec fn column_of(g: spec_fn(int, int) -> int, j: int) -> spec_fn(int) -> int {
    |i: int| g(i, j)
}

/// The function `i -> g(i, 0) + ... + g(i, width - 1)`.
pub open spec fn row_sums(g: spec_fn(int, int) -> int, width: nat) -> spec_fn(int) -> int {
    |i: int| sum(row_of(g, i), width)
}

/// The function `j -> g(0, j) + ... + g(height - 1, j)`.
pub open spec fn column_sums(g: spec_fn(int, int) -> int, height: nat) -> spec_fn(int) -> int {
    |j: int| sum(column_of(g, j), height)
}

/// A double sum may be taken by rows or by columns.
pub proof fn lemma_sum_exchange(g: spec_fn(int, int) -> int, height: nat, width: nat)
    ensures
        sum(row_sums(g, width), height) == sum(column_sums(g, height), width),
    decreases height,
{
    if height == 0 {
        assert forall|j: int| 0 <= j < width implies #[trigger] at(column_sums(g, 0), j) == 0 by {
        }
        lemma_sum_constant(0, column_sums(g, 0), width);
        assert(width * 0 == 0);
    } else {
        let h: nat = (height - 1) as nat;
        lemma_sum_exchange(g, h, width);
        assert forall|j: int| 0 <= j < width implies #[trigger] at(column_sums(g, height), j)
            == at(column_sums(g, h), j) + at(row_of(g, h as int), j) by {
            assert(column_of(g, j)(h as int) == g(h as int, j));
        }
        lemma_sum_add(column_sums(g, h), row_of(g, h as int), column_sums(g, height), width);
        assert(row_sums(g, width)(h as int) == sum(row_of(g, h as int), width));
    }
}

} // verus!
