//! The discrete Fourier transform over the integers modulo `m`, as a sum,
//! and the identity by which a transform of even length is put together
//! from the transforms of its even and odd halves.

use crate::modmath::{
    at, congruent, lemma_congruent_add, lemma_congruent_mul, lemma_congruent_pow,
    lemma_congruent_sub, lemma_sum_congruent, lemma_sum_even_odd, lemma_sum_ext, lemma_sum_scale,
    sum,
};
use vstd::arithmetic::div_mod::lemma_small_mod;
use vstd::arithmetic::mul::{lemma_mul_is_commutative, lemma_mul_nonnegative};
use vstd::arithmetic::power::{
    lemma1_pow, lemma_pow0, lemma_pow1, lemma_pow_adds, lemma_pow_multiplies, pow,
};
use vstd::prelude::*;

verus! {

/// The term `x[j] * w^(j k)` of the transform's `k`-th sum.
pub open spec fn dft_term(x: Seq<int>, w: int, k: int) -> spec_fn(int) -> int {
    |j: int| x[j] * pow(w, (j * k) as nat)
}

/// The `k`-th sum of the transform: `x[0] + x[1] w^k + x[2] w^(2k) + ...`,
/// the value at `w^k` of the polynomial with coefficients `x`.
pub open spec fn dft_sum(x: Seq<int>, w: int, k: int) -> int {
    sum(dft_term(x, w, k), x.len())
}

/// The transform of `x` with root `w` modulo `m`.
pub open spec fn dft(x: Seq<int>, w: int, m: int) -> Seq<int> {
    Seq::new(x.len(), |k: int| dft_sum(x, w, k) % m)
}

/// The transform with the inverse root, scaled by the inverse of the length.
pub open spec fn inverse_dft(x: Seq<int>, w_inv: int, n_inv: int, m: int) -> Seq<int> {
    Seq::new(x.len(), |k: int| (n_inv * dft_sum(x, w_inv, k)) % m)
}

/// The sequence with entry `i` multiplied by `root^i`, reduced.
pub open spec fn twisted(x: Seq<int>, root: int, m: int) -> Seq<int> {
    Seq::new(x.len(), |i: int| (x[i] * pow(root, i as nat)) % m)
}

/// The entries at even places.
pub open spec fn evens(y: Seq<int>) -> Seq<int> {
    Seq::new(y.len() / 2, |i: int| y[2 * i])
}

/// The entries at odd places.
pub open spec fn odds(y: Seq<int>) -> Seq<int> {
    Seq::new(y.len() / 2, |i: int| y[2 * i + 1])
}

/// `w` is a root of unity of order exactly `n` modulo `m`, for `n` a power
/// of two: its power `n / 2` is minus one (and for `n = 1` it is one).
/// Then `w^n` is one and no smaller positive power is; in a field of odd
/// order the two say the same.
pub open spec fn primitive_root(w: int, n: nat, m: int) -> bool {
    if n <= 1 {
        congruent(w, 1, m)
    } else {
        n % 2 == 0 && congruent(pow(w, n / 2), -1, m)
    }
}

/// Powers of minus one.
pub proof fn lemma_pow_minus_one(e: nat)
    ensures
        pow(-1, e) == (if e % 2 == 0 {
            1int
        } else {
            -1int
        }),
    decreases e,
{
    if e == 0 {
        lemma_pow0(-1);
    } else {
        lemma_pow_minus_one((e - 1) as nat);
        lemma_pow_adds(-1, (e - 1) as nat, 1);
        lemma_pow1(-1);
    }
}

/// Where `w^h` is minus one, `w^(t h)` is one for even `t` and minus one
/// for odd `t`.
pub proof fn lemma_pow_half_turn(w: int, h: nat, t: nat, m: int)
    requires
        m > 0,
        congruent(pow(w, h), -1, m),
    ensures
        0 <= t * h,
        congruent(pow(w, (t * h) as nat), if t % 2 == 0 {
            1int
        } else {
            -1int
        }, m),
{
    lemma_mul_nonnegative(t as int, h as int);
    lemma_mul_is_commutative(t as int, h as int);
    lemma_pow_multiplies(w, h, t);
    lemma_congruent_pow(pow(w, h), -1, t, m);
    lemma_pow_minus_one(t);
}

/// The square's power is the power with twice the exponent.
pub proof fn lemma_pow_square(w: int, e: nat)
    ensures
        pow(w * w, e) == pow(w, 2 * e),
{
    lemma_pow_multiplies(w, 2, e);
    lemma_pow_adds(w, 1, 1);
    lemma_pow1(w);
}

/// A transform of even length from the transforms of its halves: with
/// `E` and `O` the sums of the even and the odd entries for the squared
/// root, the `k`-th sum is `E + w^k O` and the sum `h` places on is
/// `E - w^k O`, where `w^h` is minus one.
pub proof fn lemma_butterfly(y: Seq<int>, w: int, k: int, m: int)
    requires
        m > 0,
        y.len() % 2 == 0,
        0 <= k < y.len() / 2,
        congruent(pow(w, y.len() / 2), -1, m),
    ensures
        congruent(
            dft_sum(y, w, k),
            dft_sum(evens(y), w * w, k) + pow(w, k as nat) * dft_sum(odds(y), w * w, k),
            m,
        ),
        congruent(
            dft_sum(y, w, k + y.len() / 2),
            dft_sum(evens(y), w * w, k) - pow(w, k as nat) * dft_sum(odds(y), w * w, k),
            m,
        ),
{
    let h: nat = y.len() / 2;
    let kn: nat = k as nat;
    let wk: int = pow(w, kn);
    let e_sum: int = dft_sum(evens(y), w * w, k);
    let o_sum: int = dft_sum(odds(y), w * w, k);
    let e_term = dft_term(evens(y), w * w, k);
    let o_term = dft_term(odds(y), w * w, k);
    let scaled = |i: int| wk * at(o_term, i);
    let negated = |i: int| (-wk) * at(o_term, i);
    assert(y.len() == 2 * h);
    assert(evens(y).len() == h);
    assert(odds(y).len() == h);

    // The facts about each place, for both sums.
    let lo = dft_term(y, w, k);
    let hi = dft_term(y, w, k + h);
    let lo_even = |i: int| at(lo, 2 * i);
    let lo_odd = |i: int| at(lo, 2 * i + 1);
    let hi_even = |i: int| at(hi, 2 * i);
    let hi_odd = |i: int| at(hi, 2 * i + 1);
    assert forall|i: int| 0 <= i < h implies #[trigger] at(lo_even, i) == at(e_term, i) by {
        lemma_place(y, w, k, i, m);
    }
    assert forall|i: int| 0 <= i < h implies #[trigger] at(lo_odd, i) == at(scaled, i) by {
        lemma_place(y, w, k, i, m);
    }
    assert forall|i: int| 0 <= i < h implies congruent(
        #[trigger] at(hi_even, i),
        at(e_term, i),
        m,
    ) by {
        lemma_place(y, w, k, i, m);
    }
    assert forall|i: int| 0 <= i < h implies congruent(
        #[trigger] at(hi_odd, i),
        at(negated, i),
        m,
    ) by {
        lemma_place(y, w, k, i, m);
    }
    lemma_sum_even_odd(lo, lo_even, lo_odd, h);
    lemma_sum_even_odd(hi, hi_even, hi_odd, h);
    lemma_sum_ext(lo_even, e_term, h);
    lemma_sum_ext(lo_odd, scaled, h);
    lemma_sum_scale(wk, o_term, scaled, h);
    lemma_sum_scale(-wk, o_term, negated, h);
    lemma_sum_congruent(hi_even, e_term, h, m);
    lemma_sum_congruent(hi_odd, negated, h, m);
    lemma_congruent_add(sum(hi_even, h), e_sum, sum(hi_odd, h), (-wk) * o_sum, m);
    assert((-wk) * o_sum == -(wk * o_sum)) by (nonlinear_arith);
}

/// The two terms at places `2 i` and `2 i + 1` of the `k`-th sum and of
/// the sum `h` places on, by the terms of the halves.
proof fn lemma_place(y: Seq<int>, w: int, k: int, i: int, m: int)
    requires
        m > 0,
        y.len() % 2 == 0,
        0 <= k < y.len() / 2,
        0 <= i < y.len() / 2,
        congruent(pow(w, y.len() / 2), -1, m),
    ensures
        at(dft_term(y, w, k), 2 * i) == at(dft_term(evens(y), w * w, k), i),
        at(dft_term(y, w, k), 2 * i + 1) == pow(w, k as nat) * at(
            dft_term(odds(y), w * w, k),
            i,
        ),
        congruent(
            at(dft_term(y, w, k + y.len() / 2), 2 * i),
            at(dft_term(evens(y), w * w, k), i),
            m,
        ),
        congruent(
            at(dft_term(y, w, k + y.len() / 2), 2 * i + 1),
            (-pow(w, k as nat)) * at(dft_term(odds(y), w * w, k), i),
            m,
        ),
{
    let h: nat = y.len() / 2;
    let kn: nat = k as nat;
    let inn: nat = i as nat;
    let wk: int = pow(w, kn);
    let ik: nat = inn * kn;
    lemma_mul_nonnegative(i, k);
    let base: int = pow(w * w, ik);
    lemma_pow_square(w, ik);
    // exponents
    assert((2 * i) * k == 2 * ik) by (nonlinear_arith)
        requires
            ik == i * k,
    ;
    assert((2 * i + 1) * k == 2 * ik + kn) by (nonlinear_arith)
        requires
            ik == i * k,
            kn == k,
    ;
    assert((2 * i) * (k + h) == 2 * ik + (2 * inn) * h) by (nonlinear_arith)
        requires
            ik == i * k,
            inn == i,
    ;
    assert((2 * i + 1) * (k + h) == 2 * ik + kn + (2 * inn + 1) * h) by (nonlinear_arith)
        requires
            ik == i * k,
            inn == i,
            kn == k,
    ;
    lemma_pow_adds(w, 2 * ik, kn);
    lemma_pow_half_turn(w, h, 2 * inn, m);
    lemma_pow_half_turn(w, h, 2 * inn + 1, m);
    let even_turn: nat = ((2 * inn) * h) as nat;
    let odd_turn: nat = ((2 * inn + 1) * h) as nat;
    lemma_pow_adds(w, 2 * ik, even_turn);
    lemma_pow_adds(w, 2 * ik + kn, odd_turn);
    let ye: int = y[2 * i];
    let yo: int = y[2 * i + 1];
    assert(evens(y)[i] == ye);
    assert(odds(y)[i] == yo);
    // the k-th sum
    assert(at(dft_term(y, w, k), 2 * i) == ye * base);
    assert(at(dft_term(evens(y), w * w, k), i) == ye * base);
    assert(at(dft_term(y, w, k), 2 * i + 1) == yo * (base * wk));
    assert(at(dft_term(odds(y), w * w, k), i) == yo * base);
    assert(yo * (base * wk) == wk * (yo * base)) by (nonlinear_arith);
    // the sum h places on
    assert(at(dft_term(y, w, k + h), 2 * i) == ye * (base * pow(w, even_turn)));
    assert(at(dft_term(y, w, k + h), 2 * i + 1) == yo * ((base * wk) * pow(w, odd_turn)));
    lemma_congruent_mul(base, base, pow(w, even_turn), 1, m);
    lemma_congruent_mul(ye, ye, base * pow(w, even_turn), base * 1, m);
    lemma_congruent_mul(base * wk, base * wk, pow(w, odd_turn), -1, m);
    lemma_congruent_mul(yo, yo, (base * wk) * pow(w, odd_turn), (base * wk) * (-1), m);
    assert(yo * ((base * wk) * (-1)) == (-wk) * (yo * base)) by (nonlinear_arith);
}

/// A root of unity of power-of-two order is not zero modulo `m`.
pub proof fn lemma_root_is_not_zero(w: int, n: nat, m: int)
    requires
        m > 1,
        n >= 1,
        0 <= w < m,
        primitive_root(w, n, m),
    ensures
        w != 0,
{
    if w == 0 {
        if n <= 1 {
            assert(0int % m == 0);
            lemma_small_mod(1, m as nat);
        } else {
            vstd::arithmetic::power::lemma0_pow((n / 2) as nat);
            assert(0int % m == 0);
            lemma_minus_one(m);
        }
    }
}

/// Minus one leaves the remainder `m - 1`.
pub proof fn lemma_minus_one(m: int)
    requires
        m > 1,
    ensures
        (-1int) % m == m - 1,
{
    vstd::arithmetic::div_mod::lemma_fundamental_div_mod_converse(-1, m, -1, m - 1);
}

/// The inverse of a root of unity of order `n` is one too.
pub proof fn lemma_inverse_is_primitive(w: int, w_inv: int, n: nat, m: int)
    requires
        m > 1,
        n >= 1,
        primitive_root(w, n, m),
        congruent(w * w_inv, 1, m),
    ensures
        primitive_root(w_inv, n, m),
{
    if n <= 1 {
        // w is one, so its inverse is w times its inverse
        lemma_congruent_mul(w, 1, w_inv, w_inv, m);
        assert(1 * w_inv == w_inv);
    } else {
        let h: nat = n / 2;
        vstd::arithmetic::power::lemma_pow_distributes(w, w_inv, h);
        lemma_congruent_pow(w * w_inv, 1, h, m);
        lemma1_pow(h);
        // w^h * w_inv^h is one, and w^h is minus one
        lemma_congruent_mul(pow(w, h), -1, pow(w_inv, h), pow(w_inv, h), m);
        assert((-1) * pow(w_inv, h) == -pow(w_inv, h));
        lemma_congruent_sub(0, 0, -pow(w_inv, h), 1, m);
    }
}

/// The square of a root of unity of order `2 n` has order `n`.
pub proof fn lemma_square_is_primitive(w: int, square: int, n: nat, m: int)
    requires
        m > 1,
        n >= 1,
        n == 1 || n % 2 == 0,
        primitive_root(w, 2 * n, m),
        congruent(square, w * w, m),
    ensures
        primitive_root(square, n, m),
{
    assert((2 * n) / 2 == n);
    if n <= 1 {
        lemma_pow1(w);
        lemma_congruent_mul(w, -1, w, -1, m);
        assert((-1int) * (-1int) == 1);
    } else {
        let h: nat = n / 2;
        lemma_congruent_pow(square, w * w, h, m);
        lemma_pow_square(w, h);
    }
}

/// The power `n` of a root of unity of order `n` is one.
pub proof fn lemma_root_order(w: int, n: nat, m: int)
    requires
        m > 1,
        n >= 1,
        primitive_root(w, n, m),
    ensures
        congruent(pow(w, n), 1, m),
{
    if n <= 1 {
        lemma_pow1(w);
    } else {
        let h: nat = n / 2;
        lemma_pow_half_turn(w, h, 2, m);
        assert(2 * h == n);
    }
}

/// Where the power `n` of `w` is one, exponents count modulo `n`.
pub proof fn lemma_pow_mod_order(w: int, n: nat, e: nat, m: int)
    requires
        m > 0,
        n >= 1,
        congruent(pow(w, n), 1, m),
    ensures
        congruent(pow(w, e), pow(w, e % n), m),
{
    let q: nat = e / n;
    let r: nat = e % n;
    vstd::arithmetic::div_mod::lemma_fundamental_div_mod(e as int, n as int);
    lemma_mul_nonnegative(n as int, q as int);
    assert(e == n * q + r);
    lemma_pow_adds(w, n * q, r);
    lemma_pow_multiplies(w, n, q);
    lemma_congruent_pow(pow(w, n), 1, q, m);
    lemma1_pow(q);
    lemma_congruent_mul(pow(w, n * q), 1, pow(w, r), pow(w, r), m);
    assert(1 * pow(w, r) == pow(w, r));
}

} // verus!
