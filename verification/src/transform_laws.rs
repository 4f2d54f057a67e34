//! Laws of the transform: a root of unity's powers sum to zero, the inverse
//! transform undoes the transform, the transform of a constant, and the
//! transform of a convolution.

use crate::dft::{
    dft, dft_sum, dft_term, inverse_dft, lemma_pow_half_turn, lemma_pow_square,
    lemma_square_is_primitive, primitive_root, twisted,
};
use crate::modmath::{
    at, column_of, column_sums, congruent, lemma_congruent_add, lemma_congruent_canonical,
    lemma_congruent_mod, lemma_congruent_mul, lemma_congruent_pow, lemma_sum_congruent,
    lemma_sum_constant, lemma_sum_exchange, lemma_sum_ext, lemma_sum_scale, lemma_sum_split,
    row_of, row_sums, sum,
};
use vstd::arithmetic::mul::{
    lemma_mul_is_associative, lemma_mul_is_commutative, lemma_mul_nonnegative,
};
use vstd::arithmetic::power::{lemma1_pow, lemma_pow0, lemma_pow_adds, lemma_pow_distributes, pow};
use vstd::arithmetic::power2::{lemma2_to64, lemma_pow2_pos, lemma_pow2_unfold, pow2};
use vstd::prelude::*;

verus! {

/// The powers `w^(d k)` as a function of `k`.
pub open spec fn power_term(w: int, d: int) -> spec_fn(int) -> int {
    |k: int| pow(w, (d * k) as nat)
}

/// The powers `1, w^d, w^(2d), ...` of a root of unity of order `n = 2^levels`
/// sum to zero over `n` terms, where `d` is not a multiple of `n`.
pub proof fn lemma_powers_sum_to_zero(w: int, d: int, levels: nat, m: int)
    requires
        m > 1,
        primitive_root(w, pow2(levels), m),
        0 < d < pow2(levels),
    ensures
        congruent(sum(power_term(w, d), pow2(levels)), 0, m),
    decreases levels,
{
    let n: nat = pow2(levels);
    if levels == 0 {
        lemma2_to64();
    } else {
        let h: nat = pow2((levels - 1) as nat);
        lemma_pow2_unfold(levels);
        lemma_pow2_pos((levels - 1) as nat);
        assert(n == 2 * h && n / 2 == h);
        let f = power_term(w, d);
        let tail = |k: int| at(f, k + h);
        lemma_sum_split(f, tail, h, h);
        lemma_mul_nonnegative(d, h as int);
        let dh: nat = (d * h) as nat;
        lemma_pow_half_turn(w, h, d as nat, m);
        if d % 2 == 1 {
            // the second half is the first with the opposite sign
            let negated = |k: int| (-1) * at(f, k);
            assert forall|k: int| 0 <= k < h implies congruent(
                #[trigger] at(tail, k),
                at(negated, k),
                m,
            ) by {
                lemma_mul_nonnegative(d, k);
                assert(d * (k + h) == d * k + dh) by (nonlinear_arith)
                    requires
                        dh == d * h,
                ;
                lemma_pow_adds(w, (d * k) as nat, dh);
                lemma_congruent_mul(pow(w, (d * k) as nat), pow(w, (d * k) as nat), pow(w, dh), -1, m);
                lemma_mul_is_commutative(pow(w, (d * k) as nat), -1);
            }
            lemma_sum_congruent(tail, negated, h, m);
            lemma_sum_scale(-1, f, negated, h);
            lemma_congruent_add(sum(f, h), sum(f, h), sum(tail, h), (-1) * sum(f, h), m);
        } else {
            let e: int = d / 2;
            let square: int = w * w;
            let g = power_term(square, e);
            assert(1 <= e < h);
            if levels - 1 == 0 {
                lemma2_to64();
                assert(false);
            }
            lemma_pow2_unfold((levels - 1) as nat);
            lemma_square_is_primitive(w, square, h, m);
            lemma_powers_sum_to_zero(square, e, (levels - 1) as nat, m);
            assert forall|k: int| 0 <= k < h implies #[trigger] at(f, k) == at(g, k) by {
                lemma_mul_nonnegative(e, k);
                lemma_pow_square(w, (e * k) as nat);
                assert(d * k == 2 * (e * k)) by (nonlinear_arith)
                    requires
                        d == 2 * e,
                ;
            }
            lemma_sum_ext(f, g, h);
            assert forall|k: int| 0 <= k < h implies congruent(#[trigger] at(tail, k), at(g, k), m) by {
                lemma_mul_nonnegative(d, k);
                lemma_mul_nonnegative(e, k);
                lemma_pow_square(w, (e * k) as nat);
                assert(d * k == 2 * (e * k)) by (nonlinear_arith)
                    requires
                        d == 2 * e,
                ;
                assert(d * (k + h) == d * k + dh) by (nonlinear_arith)
                    requires
                        dh == d * h,
                ;
                lemma_pow_adds(w, (d * k) as nat, dh);
                lemma_congruent_mul(pow(w, (d * k) as nat), pow(w, (d * k) as nat), pow(w, dh), 1, m);
            }
            lemma_sum_congruent(tail, g, h, m);
            lemma_congruent_add(sum(f, h), 0, sum(tail, h), 0, m);
        }
    }
}

/// No positive power below `n` of a root of unity of order `n = 2^levels`
/// is one: the order is exactly `n`.
pub proof fn lemma_order_is_exact(w: int, k: int, levels: nat, m: int)
    requires
        m > 2,
        primitive_root(w, pow2(levels), m),
        0 < k < pow2(levels),
    ensures
        !congruent(pow(w, k as nat), 1, m),
    decreases levels,
{
    if levels == 0 {
        lemma2_to64();
    } else {
        let h: nat = pow2((levels - 1) as nat);
        lemma_pow2_unfold(levels);
        lemma_pow2_pos((levels - 1) as nat);
        assert(pow2(levels) / 2 == h);
        if k % 2 == 1 {
            // the power k h is minus one, and it is a power of the power k
            lemma_pow_half_turn(w, h, k as nat, m);
            vstd::arithmetic::power::lemma_pow_multiplies(w, k as nat, h);
            if congruent(pow(w, k as nat), 1, m) {
                lemma_congruent_pow(pow(w, k as nat), 1, h, m);
                lemma1_pow(h);
                crate::dft::lemma_minus_one(m);
                vstd::arithmetic::div_mod::lemma_small_mod(1, m as nat);
            }
        } else {
            let e: int = k / 2;
            assert(1 <= e < h);
            if levels - 1 == 0 {
                lemma2_to64();
                assert(false);
            }
            lemma_pow2_unfold((levels - 1) as nat);
            lemma_square_is_primitive(w, w * w, h, m);
            lemma_order_is_exact(w * w, e, (levels - 1) as nat, m);
            lemma_pow_square(w, e as nat);
        }
    }
}

/// The sum of a function that is zero but at one place is its value there.
pub proof fn lemma_sum_single(f: spec_fn(int) -> int, i: int, n: nat)
    requires
        0 <= i < n,
        forall|j: int| 0 <= j < n && j != i ==> #[trigger] at(f, j) == 0,
    ensures
        sum(f, n) == at(f, i),
    decreases n,
{
    if n - 1 == i {
        lemma_sum_constant(0, f, (n - 1) as nat);
        assert((n - 1) * 0 == 0);
    } else {
        lemma_sum_single(f, i, (n - 1) as nat);
        assert(at(f, n - 1) == 0);
    }
}

/// The products `w^(j k) w_inv^(i k)` as a function of `k`.
pub open spec fn kernel_term(w: int, w_inv: int, i: int, j: int) -> spec_fn(int) -> int {
    |k: int| pow(w, (j * k) as nat) * pow(w_inv, (i * k) as nat)
}

/// The rows of the transform and of the inverse transform are orthogonal:
/// the sum over `k` of `w^(j k) w_inv^(i k)` is `n` where `i = j` and zero
/// elsewhere.
pub proof fn lemma_kernel(w: int, w_inv: int, i: int, j: int, levels: nat, m: int)
    requires
        m > 1,
        primitive_root(w, pow2(levels), m),
        primitive_root(w_inv, pow2(levels), m),
        congruent(w * w_inv, 1, m),
        0 <= i < pow2(levels),
        0 <= j < pow2(levels),
    ensures
        congruent(
            sum(kernel_term(w, w_inv, i, j), pow2(levels)),
            if i == j {
                pow2(levels) as int
            } else {
                0
            },
            m,
        ),
{
    let n: nat = pow2(levels);
    let f = kernel_term(w, w_inv, i, j);
    // with the smaller of i and j taken out of both exponents, the product
    // of the root and its inverse is left to that power
    let low: int = if i <= j {
        i
    } else {
        j
    };
    let d: int = if i <= j {
        j - i
    } else {
        i - j
    };
    let u: int = if i <= j {
        w
    } else {
        w_inv
    };
    let g = power_term(u, d);
    assert forall|k: int| 0 <= k < n implies congruent(#[trigger] at(f, k), at(g, k), m) by {
        lemma_mul_nonnegative(low, k);
        lemma_mul_nonnegative(d, k);
        lemma_mul_nonnegative(i, k);
        lemma_mul_nonnegative(j, k);
        let lk: nat = (low * k) as nat;
        let dk: nat = (d * k) as nat;
        assert((low + d) * k == lk + dk) by (nonlinear_arith)
            requires
                lk == low * k,
                dk == d * k,
        ;
        lemma_pow_adds(u, dk, lk);
        lemma_pow_distributes(w, w_inv, lk);
        lemma_congruent_pow(w * w_inv, 1, lk, m);
        lemma1_pow(lk);
        let core: int = pow(w, lk) * pow(w_inv, lk);
        assert(at(f, k) == pow(u, dk) * core) by {
            if i <= j {
                assert(pow(w, (j * k) as nat) == pow(w, dk) * pow(w, lk));
                lemma_mul_is_associative(pow(w, dk), pow(w, lk), pow(w_inv, lk));
            } else {
                assert(pow(w_inv, (i * k) as nat) == pow(w_inv, dk) * pow(w_inv, lk));
                assert(pow(w, lk) * (pow(w_inv, dk) * pow(w_inv, lk)) == pow(w_inv, dk) * (pow(
                    w,
                    lk,
                ) * pow(w_inv, lk))) by (nonlinear_arith);
            }
        }
        lemma_congruent_mul(pow(u, dk), pow(u, dk), core, 1, m);
    }
    lemma_sum_congruent(f, g, n, m);
    if i == j {
        assert forall|k: int| 0 <= k < n implies #[trigger] at(g, k) == 1 by {
            assert(0 * k == 0);
            lemma_pow0(u);
        }
        lemma_sum_constant(1, g, n);
    } else {
        lemma_powers_sum_to_zero(u, d, levels, m);
    }
}

/// The terms `x[j] w^(j k) w_inv^(k i)` of the double sum by which the
/// inverse transform of the transform is taken at place `i`.
pub open spec fn round_trip_term(x: Seq<int>, w: int, w_inv: int, i: int) -> spec_fn(int, int) -> int {
    |k: int, j: int| (x[j] * pow(w, (j * k) as nat)) * pow(w_inv, (k * i) as nat)
}

/// The inverse transform undoes the transform, at one place.
proof fn lemma_round_trip_at(
    x: Seq<int>,
    w: int,
    w_inv: int,
    n_inv: int,
    levels: nat,
    m: int,
    i: int,
)
    requires
        m > 1,
        x.len() == pow2(levels),
        primitive_root(w, pow2(levels), m),
        primitive_root(w_inv, pow2(levels), m),
        congruent(w * w_inv, 1, m),
        congruent(pow2(levels) * n_inv, 1, m),
        0 <= i < pow2(levels),
    ensures
        congruent(n_inv * dft_sum(dft(x, w, m), w_inv, i), x[i], m),
{
    let n: nat = pow2(levels);
    let y = dft(x, w, m);
    let g = round_trip_term(x, w, w_inv, i);
    let outer = dft_term(y, w_inv, i);
    // every term of the outer sum is a row of the double sum
    assert forall|k: int| 0 <= k < n implies congruent(
        #[trigger] at(outer, k),
        at(row_sums(g, n), k),
        m,
    ) by {
        let p: int = pow(w_inv, (k * i) as nat);
        let inner = dft_term(x, w, k);
        let row = row_of(g, k);
        assert forall|j: int| 0 <= j < n implies #[trigger] at(row, j) == p * at(inner, j) by {
            lemma_mul_is_commutative(p, at(inner, j));
        }
        lemma_sum_scale(p, inner, row, n);
        lemma_congruent_mod(dft_sum(x, w, k), m);
        lemma_congruent_mul(y[k], dft_sum(x, w, k), p, p, m);
        lemma_mul_is_commutative(p, dft_sum(x, w, k));
    }
    lemma_sum_congruent(outer, row_sums(g, n), n, m);
    lemma_sum_exchange(g, n, n);
    // every column is the entry times the kernel
    let single = |j: int|
        if j == i {
            x[i] * (n as int)
        } else {
            0
        };
    assert forall|j: int| 0 <= j < n implies congruent(
        #[trigger] at(column_sums(g, n), j),
        at(single, j),
        m,
    ) by {
        let kernel = kernel_term(w, w_inv, i, j);
        let column = column_of(g, j);
        assert forall|k: int| 0 <= k < n implies #[trigger] at(column, k) == x[j] * at(
            kernel,
            k,
        ) by {
            lemma_mul_is_commutative(k, i);
            lemma_mul_is_associative(
                x[j],
                pow(w, (j * k) as nat),
                pow(w_inv, (i * k) as nat),
            );
        }
        lemma_sum_scale(x[j], kernel, column, n);
        lemma_kernel(w, w_inv, i, j, levels, m);
        lemma_congruent_mul(x[j], x[j], sum(kernel, n), if i == j {
            n as int
        } else {
            0
        }, m);
        assert(x[j] * 0 == 0);
    }
    lemma_sum_congruent(column_sums(g, n), single, n, m);
    lemma_sum_single(single, i, n);
    // the inverse of the length takes the length away
    let total: int = dft_sum(y, w_inv, i);
    assert(congruent(total, x[i] * (n as int), m));
    lemma_congruent_mul(n_inv, n_inv, total, x[i] * (n as int), m);
    assert(n_inv * (x[i] * (n as int)) == x[i] * (n * n_inv)) by (nonlinear_arith);
    lemma_congruent_mul(x[i], x[i], n * n_inv, 1, m);
}

/// Every entry is a remainder modulo `m`.
pub open spec fn reduced(x: Seq<int>, m: int) -> bool {
    forall|i: int| 0 <= i < x.len() ==> 0 <= #[trigger] x[i] < m
}

/// The inverse transform undoes the transform: for a sequence of
/// remainders whose length is a power of two `n`, a root of unity of order
/// `n` with its inverse, and the inverse of `n`.
pub proof fn lemma_round_trip(x: Seq<int>, w: int, w_inv: int, n_inv: int, levels: nat, m: int)
    requires
        m > 1,
        x.len() == pow2(levels),
        reduced(x, m),
        primitive_root(w, pow2(levels), m),
        primitive_root(w_inv, pow2(levels), m),
        congruent(w * w_inv, 1, m),
        congruent(pow2(levels) * n_inv, 1, m),
    ensures
        inverse_dft(dft(x, w, m), w_inv, n_inv, m) == x,
{
    let back = inverse_dft(dft(x, w, m), w_inv, n_inv, m);
    assert forall|i: int| 0 <= i < x.len() implies back[i] == x[i] by {
        lemma_round_trip_at(x, w, w_inv, n_inv, levels, m, i);
        lemma_congruent_canonical(x[i], n_inv * dft_sum(dft(x, w, m), w_inv, i), m);
    }
    assert(back =~= x);
}

/// The transform undoes the inverse transform.
pub proof fn lemma_round_trip_back(x: Seq<int>, w: int, w_inv: int, n_inv: int, levels: nat, m: int)
    requires
        m > 1,
        x.len() == pow2(levels),
        reduced(x, m),
        primitive_root(w, pow2(levels), m),
        primitive_root(w_inv, pow2(levels), m),
        congruent(w * w_inv, 1, m),
        congruent(pow2(levels) * n_inv, 1, m),
    ensures
        dft(inverse_dft(x, w_inv, n_inv, m), w, m) == x,
{
    let n: nat = pow2(levels);
    let y = inverse_dft(x, w_inv, n_inv, m);
    let z = dft(x, w_inv, m);
    let back = dft(y, w, m);
    lemma_mul_is_commutative(w, w_inv);
    assert forall|i: int| 0 <= i < n implies back[i] == x[i] by {
        // the inverse transform is the transform with the other root,
        // scaled, and the scale moves out of the sum
        let f = dft_term(y, w, i);
        let g = dft_term(z, w, i);
        let scaled = |k: int| n_inv * at(g, k);
        assert forall|k: int| 0 <= k < n implies congruent(#[trigger] at(f, k), at(scaled, k), m) by {
            let s: int = dft_sum(x, w_inv, k);
            let p: int = pow(w, (k * i) as nat);
            lemma_congruent_mod(n_inv * s, m);
            lemma_congruent_mod(s, m);
            lemma_congruent_mul(n_inv, n_inv, s, z[k], m);
            lemma_congruent_mul(y[k], n_inv * z[k], p, p, m);
            lemma_mul_is_associative(n_inv, z[k], p);
        }
        lemma_sum_congruent(f, scaled, n, m);
        lemma_sum_scale(n_inv, g, scaled, n);
        lemma_round_trip_at(x, w_inv, w, n_inv, levels, m, i);
        lemma_congruent_canonical(x[i], dft_sum(y, w, i), m);
    }
    assert(back =~= x);
}

/// The sequence of `n` entries `mu`.
pub open spec fn constant(mu: int, n: nat) -> Seq<int> {
    Seq::new(n, |i: int| mu)
}

/// The sequence whose first entry is `mu n`, reduced, and whose other
/// `n - 1` entries are zero.
pub open spec fn spike(mu: int, n: nat, m: int) -> Seq<int> {
    Seq::new(
        n,
        |i: int|
            if i == 0 {
                (mu * n) % m
            } else {
                0
            },
    )
}

/// The transform of a constant sequence is the constant times the length
/// at the first place and zero at the others.
pub proof fn lemma_transform_of_constant(mu: int, w: int, levels: nat, m: int)
    requires
        m > 1,
        primitive_root(w, pow2(levels), m),
    ensures
        dft(constant(mu, pow2(levels)), w, m) == spike(mu, pow2(levels), m),
{
    let n: nat = pow2(levels);
    let x = constant(mu, n);
    let target = spike(mu, n, m);
    assert forall|k: int| 0 <= k < n implies dft(x, w, m)[k] == target[k] by {
        let f = dft_term(x, w, k);
        let g = power_term(w, k);
        assert forall|j: int| 0 <= j < n implies #[trigger] at(f, j) == mu * at(g, j) by {
            lemma_mul_is_commutative(j, k);
        }
        lemma_sum_scale(mu, g, f, n);
        if k == 0 {
            assert forall|j: int| 0 <= j < n implies #[trigger] at(g, j) == 1 by {
                assert(0 * j == 0);
                lemma_pow0(w);
            }
            lemma_sum_constant(1, g, n);
        } else {
            lemma_powers_sum_to_zero(w, k, levels, m);
            lemma_congruent_mul(mu, mu, sum(g, n), 0, m);
            assert(mu * 0 == 0);
            assert(0int % m == 0);
        }
    }
    assert(dft(x, w, m) =~= target);
}

/// The products of the entries at the same places, reduced.
pub open spec fn pointwise(a: Seq<int>, b: Seq<int>, m: int) -> Seq<int> {
    Seq::new(a.len(), |i: int| (a[i] * b[i]) % m)
}

/// The term `a[j] b[(i - j) mod n]` of the cyclic convolution at place `i`.
pub open spec fn cyclic_term(a: Seq<int>, b: Seq<int>, i: int) -> spec_fn(int) -> int {
    |j: int| a[j] * b[(i - j) % (a.len() as int)]
}

/// The cyclic convolution: the product of the polynomials with the
/// coefficients `a` and `b` modulo `X^n - 1`, coefficients reduced.
pub open spec fn cyclic_convolution(a: Seq<int>, b: Seq<int>, m: int) -> Seq<int> {
    Seq::new(a.len(), |i: int| sum(cyclic_term(a, b, i), a.len()) % m)
}

/// The term of the negacyclic convolution at place `i`: `a[j] b[i - j]`,
/// and where `j` is above `i` the product `a[j] b[i - j + n]` with the
/// opposite sign.
pub open spec fn negacyclic_term(a: Seq<int>, b: Seq<int>, i: int) -> spec_fn(int) -> int {
    |j: int|
        if j <= i {
            a[j] * b[i - j]
        } else {
            -(a[j] * b[i - j + a.len()])
        }
}

/// The negacyclic convolution: the product of the polynomials with the
/// coefficients `a` and `b` modulo `X^n + 1`, coefficients reduced.
pub open spec fn negacyclic_convolution(a: Seq<int>, b: Seq<int>, m: int) -> Seq<int> {
    Seq::new(a.len(), |i: int| sum(negacyclic_term(a, b, i), a.len()) % m)
}

/// A sum does not change when its terms are moved round cyclically.
pub proof fn lemma_sum_rotation(f: spec_fn(int) -> int, g: spec_fn(int) -> int, j: int, n: nat)
    requires
        0 <= j < n,
        forall|i: int| 0 <= i < n ==> #[trigger] at(g, i) == at(f, (i - j) % (n as int)),
    ensures
        sum(g, n) == sum(f, n),
{
    let back: nat = (n - j) as nat;
    let g_tail = |i: int| at(g, i + j);
    let f_tail = |i: int| at(f, i + back);
    lemma_sum_split(g, g_tail, j as nat, back);
    lemma_sum_split(f, f_tail, back, j as nat);
    assert forall|i: int| 0 <= i < back implies #[trigger] at(g_tail, i) == at(f, i) by {
        assert(at(g, i + j) == at(f, (i + j - j) % (n as int)));
        vstd::arithmetic::div_mod::lemma_small_mod(i as nat, n);
    }
    lemma_sum_ext(g_tail, f, back);
    assert forall|i: int| 0 <= i < j implies #[trigger] at(g, i) == at(f_tail, i) by {
        vstd::arithmetic::div_mod::lemma_fundamental_div_mod_converse(
            i - j,
            n as int,
            -1,
            i - j + n,
        );
    }
    lemma_sum_ext(g, f_tail, j as nat);
}

/// The terms `a[j] b[(i - j) mod n] w^(i k)` of the double sum by which
/// the transform of the convolution is taken at place `k`.
pub open spec fn convolution_term(a: Seq<int>, b: Seq<int>, w: int, k: int) -> spec_fn(
    int,
    int,
) -> int {
    |i: int, j: int| (a[j] * b[(i - j) % (a.len() as int)]) * pow(w, (i * k) as nat)
}

/// The transform of a cyclic convolution is the product of the
/// transforms, at one place.
proof fn lemma_convolution_transform_at(
    a: Seq<int>,
    b: Seq<int>,
    w: int,
    levels: nat,
    m: int,
    k: int,
)
    requires
        m > 1,
        a.len() == pow2(levels),
        b.len() == pow2(levels),
        primitive_root(w, pow2(levels), m),
        0 <= k < pow2(levels),
    ensures
        congruent(
            dft_sum(cyclic_convolution(a, b, m), w, k),
            dft_sum(a, w, k) * dft_sum(b, w, k),
            m,
        ),
{
    let n: nat = pow2(levels);
    let c = cyclic_convolution(a, b, m);
    let g = convolution_term(a, b, w, k);
    let outer = dft_term(c, w, k);
    let s_b: int = dft_sum(b, w, k);
    assert forall|i: int| 0 <= i < n implies congruent(
        #[trigger] at(outer, i),
        at(row_sums(g, n), i),
        m,
    ) by {
        let p: int = pow(w, (i * k) as nat);
        let inner = cyclic_term(a, b, i);
        let row = row_of(g, i);
        assert forall|j: int| 0 <= j < n implies #[trigger] at(row, j) == p * at(inner, j) by {
            lemma_mul_is_commutative(p, at(inner, j));
        }
        lemma_sum_scale(p, inner, row, n);
        lemma_congruent_mod(sum(inner, n), m);
        lemma_congruent_mul(c[i], sum(inner, n), p, p, m);
        lemma_mul_is_commutative(p, sum(inner, n));
    }
    lemma_sum_congruent(outer, row_sums(g, n), n, m);
    lemma_sum_exchange(g, n, n);
    // a column is the entry of a with its power of the root, times the
    // sum of b
    let scaled = |j: int| s_b * at(dft_term(a, w, k), j);
    assert forall|j: int| 0 <= j < n implies congruent(
        #[trigger] at(column_sums(g, n), j),
        at(scaled, j),
        m,
    ) by {
        lemma_convolution_column(a, b, w, levels, m, k, j);
    }
    lemma_sum_congruent(column_sums(g, n), scaled, n, m);
    lemma_sum_scale(s_b, dft_term(a, w, k), scaled, n);
    lemma_mul_is_commutative(s_b, dft_sum(a, w, k));
}

/// One column of the double sum of the transform of a convolution.
proof fn lemma_convolution_column(
    a: Seq<int>,
    b: Seq<int>,
    w: int,
    levels: nat,
    m: int,
    k: int,
    j: int,
)
    requires
        m > 1,
        a.len() == pow2(levels),
        b.len() == pow2(levels),
        primitive_root(w, pow2(levels), m),
        0 <= k < pow2(levels),
        0 <= j < pow2(levels),
    ensures
        congruent(
            sum(column_of(convolution_term(a, b, w, k), j), pow2(levels)),
            dft_sum(b, w, k) * at(dft_term(a, w, k), j),
            m,
        ),
{
    let n: nat = pow2(levels);
    let g = convolution_term(a, b, w, k);
    let column = column_of(g, j);
    let wj: int = pow(w, (j * k) as nat);
    let factor: int = a[j] * wj;
    let shifted = |t: int| factor * at(dft_term(b, w, k), t);
    let turned = |i: int| at(shifted, (i - j) % (n as int));
    lemma_mul_nonnegative(j, k);
    assert forall|i: int| 0 <= i < n implies congruent(#[trigger] at(column, i), at(turned, i), m) by {
        let t: int = (i - j) % (n as int);
        lemma_mul_nonnegative(i, k);
        lemma_mul_nonnegative(t + j, k);
        let p: int = pow(w, (i * k) as nat);
        let q: int = pow(w, (t * k) as nat);
        if i >= j {
            vstd::arithmetic::div_mod::lemma_small_mod((i - j) as nat, n);
            lemma_mul_nonnegative(t, k);
            assert(i * k == t * k + j * k) by (nonlinear_arith)
                requires
                    i == t + j,
            ;
            lemma_pow_adds(w, (t * k) as nat, (j * k) as nat);
            assert(p == q * wj);
        } else {
            vstd::arithmetic::div_mod::lemma_fundamental_div_mod_converse(
                i - j,
                n as int,
                -1,
                i - j + n,
            );
            lemma_mul_nonnegative(t, k);
            lemma_mul_nonnegative(n as int, k);
            // one turn more, which is a power of one
            assert(n >= 2);
            if levels == 0 {
                lemma2_to64();
            }
            lemma_pow2_unfold(levels);
            let h: nat = n / 2;
            lemma_pow_half_turn(w, h, (2 * k) as nat, m);
            assert((2 * k) * h == n * k) by (nonlinear_arith)
                requires
                    n == 2 * h,
            ;
            let turn: int = pow(w, (n * k) as nat);
            assert(t * k + j * k == i * k + n * k) by (nonlinear_arith)
                requires
                    t + j == i + n,
            ;
            lemma_pow_adds(w, (t * k) as nat, (j * k) as nat);
            lemma_pow_adds(w, (i * k) as nat, (n * k) as nat);
            assert(q * wj == p * turn);
            lemma_congruent_mul(p, p, turn, 1, m);
            assert(congruent(q * wj, p, m));
        }
        // the term, with the power of the root put in the other form
        let ab: int = a[j] * b[t];
        assert(at(column, i) == ab * p);
        assert(at(turned, i) == factor * (b[t] * q));
        assert(factor * (b[t] * q) == ab * (q * wj)) by (nonlinear_arith)
            requires
                factor == a[j] * wj,
                ab == a[j] * b[t],
        ;
        lemma_congruent_mul(ab, ab, p, q * wj, m);
    }
    lemma_sum_congruent(column, turned, n, m);
    lemma_sum_rotation(shifted, turned, j, n);
    lemma_sum_scale(factor, dft_term(b, w, k), shifted, n);
    lemma_mul_is_commutative(factor, dft_sum(b, w, k));
}

/// The transform of a cyclic convolution is the product, place by place,
/// of the transforms.
pub proof fn lemma_convolution_transform(a: Seq<int>, b: Seq<int>, w: int, levels: nat, m: int)
    requires
        m > 1,
        a.len() == pow2(levels),
        b.len() == pow2(levels),
        primitive_root(w, pow2(levels), m),
    ensures
        dft(cyclic_convolution(a, b, m), w, m) == pointwise(dft(a, w, m), dft(b, w, m), m),
{
    let left = dft(cyclic_convolution(a, b, m), w, m);
    let right = pointwise(dft(a, w, m), dft(b, w, m), m);
    assert forall|k: int| 0 <= k < a.len() implies left[k] == right[k] by {
        lemma_convolution_transform_at(a, b, w, levels, m, k);
        vstd::arithmetic::div_mod::lemma_mul_mod_noop(dft_sum(a, w, k), dft_sum(b, w, k), m);
    }
    assert(left =~= right);
}

/// Transforming two sequences, multiplying place by place and
/// transforming back gives their cyclic convolution.
pub proof fn lemma_cyclic_convolution(
    a: Seq<int>,
    b: Seq<int>,
    w: int,
    w_inv: int,
    n_inv: int,
    levels: nat,
    m: int,
)
    requires
        m > 1,
        a.len() == pow2(levels),
        b.len() == pow2(levels),
        primitive_root(w, pow2(levels), m),
        primitive_root(w_inv, pow2(levels), m),
        congruent(w * w_inv, 1, m),
        congruent(pow2(levels) * n_inv, 1, m),
    ensures
        inverse_dft(pointwise(dft(a, w, m), dft(b, w, m), m), w_inv, n_inv, m)
            == cyclic_convolution(a, b, m),
{
    let c = cyclic_convolution(a, b, m);
    lemma_convolution_transform(a, b, w, levels, m);
    assert forall|i: int| 0 <= i < c.len() implies 0 <= #[trigger] c[i] < m by {
        lemma_congruent_mod(sum(cyclic_term(a, b, i), a.len()), m);
    }
    lemma_round_trip(c, w, w_inv, n_inv, levels, m);
}

/// The cyclic convolution of two twisted sequences is the twisted
/// negacyclic convolution, at one place.
proof fn lemma_twisted_convolution_at(
    a: Seq<int>,
    b: Seq<int>,
    psi: int,
    n: nat,
    m: int,
    i: int,
)
    requires
        m > 1,
        n >= 1,
        a.len() == n,
        b.len() == n,
        congruent(pow(psi, n), -1, m),
        0 <= i < n,
    ensures
        congruent(
            sum(cyclic_term(twisted(a, psi, m), twisted(b, psi, m), i), n),
            pow(psi, i as nat) * sum(negacyclic_term(a, b, i), n),
            m,
        ),
{
    let ta = twisted(a, psi, m);
    let tb = twisted(b, psi, m);
    let f = cyclic_term(ta, tb, i);
    let g = negacyclic_term(a, b, i);
    let pi: int = pow(psi, i as nat);
    let scaled = |j: int| pi * at(g, j);
    assert forall|j: int| 0 <= j < n implies congruent(#[trigger] at(f, j), at(scaled, j), m) by {
        let t: int = (i - j) % (n as int);
        let pj: int = pow(psi, j as nat);
        let pt: int = pow(psi, t as nat);
        if j <= i {
            vstd::arithmetic::div_mod::lemma_small_mod((i - j) as nat, n);
            lemma_pow_adds(psi, j as nat, t as nat);
            assert(pj * pt == pi);
        } else {
            vstd::arithmetic::div_mod::lemma_fundamental_div_mod_converse(
                i - j,
                n as int,
                -1,
                i - j + n,
            );
            lemma_pow_adds(psi, j as nat, t as nat);
            lemma_pow_adds(psi, i as nat, n);
            assert(pj * pt == pi * pow(psi, n));
            lemma_congruent_mul(pi, pi, pow(psi, n), -1, m);
        }
        // the two twisted entries, without their reductions
        lemma_congruent_mod(a[j] * pj, m);
        lemma_congruent_mod(b[t] * pt, m);
        lemma_congruent_mul(ta[j], a[j] * pj, tb[t], b[t] * pt, m);
        let ab: int = a[j] * b[t];
        assert((a[j] * pj) * (b[t] * pt) == ab * (pj * pt)) by (nonlinear_arith)
            requires
                ab == a[j] * b[t],
        ;
        if j <= i {
            assert(at(scaled, j) == pi * ab);
            lemma_mul_is_commutative(pi, ab);
        } else {
            lemma_congruent_mul(ab, ab, pj * pt, pi * (-1), m);
            assert(at(scaled, j) == pi * (-ab));
            assert(ab * (pi * (-1)) == pi * (-ab)) by (nonlinear_arith);
        }
    }
    lemma_sum_congruent(f, scaled, n, m);
    lemma_sum_scale(pi, g, scaled, n);
}

/// Twisting two sequences by a root of order `2 n`, transforming them
/// with its square, multiplying place by place, transforming back and
/// untwisting gives their negacyclic convolution.
pub proof fn lemma_negacyclic_convolution(
    a: Seq<int>,
    b: Seq<int>,
    psi: int,
    psi_inv: int,
    w: int,
    w_inv: int,
    n_inv: int,
    levels: nat,
    m: int,
)
    requires
        m > 1,
        a.len() == pow2(levels),
        b.len() == pow2(levels),
        primitive_root(psi, 2 * pow2(levels), m),
        congruent(psi * psi_inv, 1, m),
        primitive_root(w, pow2(levels), m),
        primitive_root(w_inv, pow2(levels), m),
        congruent(w * w_inv, 1, m),
        congruent(pow2(levels) * n_inv, 1, m),
    ensures
        twisted(
            inverse_dft(
                pointwise(dft(twisted(a, psi, m), w, m), dft(twisted(b, psi, m), w, m), m),
                w_inv,
                n_inv,
                m,
            ),
            psi_inv,
            m,
        ) == negacyclic_convolution(a, b, m),
{
    let n: nat = pow2(levels);
    lemma_pow2_pos(levels);
    let ta = twisted(a, psi, m);
    let tb = twisted(b, psi, m);
    lemma_cyclic_convolution(ta, tb, w, w_inv, n_inv, levels, m);
    let c = cyclic_convolution(ta, tb, m);
    let left = twisted(c, psi_inv, m);
    let right = negacyclic_convolution(a, b, m);
    assert((2 * n) / 2 == n);
    assert forall|i: int| 0 <= i < n implies left[i] == right[i] by {
        lemma_twisted_convolution_at(a, b, psi, n, m, i);
        let s: int = sum(negacyclic_term(a, b, i), n);
        let pi: int = pow(psi, i as nat);
        let qi: int = pow(psi_inv, i as nat);
        lemma_congruent_mod(sum(cyclic_term(ta, tb, i), n), m);
        lemma_congruent_mul(c[i], pi * s, qi, qi, m);
        lemma_pow_distributes(psi, psi_inv, i as nat);
        lemma_congruent_pow(psi * psi_inv, 1, i as nat, m);
        lemma1_pow(i as nat);
        assert((pi * s) * qi == s * (pi * qi)) by (nonlinear_arith);
        lemma_congruent_mul(s, s, pi * qi, 1, m);
    }
    assert(left =~= right);
}

} // verus!
