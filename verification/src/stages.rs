//! What the in-place butterfly network holds after each of its stages.
//!
//! After stage `t` the buffer consists of blocks of `2^t` entries, and block
//! `b` holds the transform of the entries of the input that lie
//! `2^(levels - t)` apart, starting at the bit reversal of `b`.

use crate::bits::{bit_reverse, lemma_bit_reverse_bound, lemma_bit_reverse_double};
use crate::dft::{dft_sum, dft_term, evens, lemma_butterfly, odds, primitive_root};
use crate::modmath::{
    congruent, lemma_congruent_add, lemma_congruent_mod, lemma_congruent_mul, lemma_congruent_sub,
};
use vstd::arithmetic::div_mod::lemma_fundamental_div_mod_converse;
use vstd::arithmetic::mul::{lemma_mul_is_commutative, lemma_mul_nonnegative};
use vstd::arithmetic::power::{lemma_pow0, lemma_pow1, lemma_pow_adds, lemma_pow_multiplies, pow};
use vstd::arithmetic::power2::{lemma2_to64, lemma_pow2_adds, lemma_pow2_pos, lemma_pow2_unfold, pow2};
use vstd::prelude::*;

verus! {

/// The entries of `x` that block `b` of stage `t` is the transform of.
pub open spec fn block_seq(x: Seq<int>, levels: nat, t: nat, b: nat) -> Seq<int> {
    Seq::new(
        pow2(t),
        |j: int|
            x[j * pow2((levels - t) as nat) + bit_reverse(b, (levels - t) as nat)],
    )
}

/// The root with which the blocks of stage `t` are transformed.
pub open spec fn block_root(w: int, levels: nat, t: nat) -> int {
    pow(w, pow2((levels - t) as nat))
}

/// The entry at `pos` after stage `t`.
pub open spec fn stage_value(x: Seq<int>, w: int, levels: nat, t: nat, pos: int, m: int) -> int {
    dft_sum(
        block_seq(x, levels, t, (pos / pow2(t) as int) as nat),
        block_root(w, levels, t),
        pos % pow2(t) as int,
    ) % m
}

/// Before the first stage every entry is the input's entry at the
/// bit-reversed place.
pub proof fn lemma_stage_first(x: Seq<int>, w: int, levels: nat, pos: int, m: int)
    requires
        m > 0,
        0 <= pos < pow2(levels),
        x.len() == pow2(levels),
    ensures
        stage_value(x, w, levels, 0, pos, m) == x[bit_reverse(pos as nat, levels) as int] % m,
{
    lemma2_to64();
    let y = block_seq(x, levels, 0, pos as nat);
    let r = block_root(w, levels, 0);
    assert(y.len() == 1);
    let f = dft_term(y, r, 0);
    assert(dft_sum(y, r, 0) == crate::modmath::sum(f, 0) + f(0));
    lemma_pow0(r);
    assert(0 * 0 == 0);
    assert(0 * pow2(levels) == 0);
}

/// After the last stage the buffer is the transform of the input.
pub proof fn lemma_stage_last(x: Seq<int>, w: int, levels: nat, pos: int, m: int)
    requires
        m > 0,
        0 <= pos < pow2(levels),
        x.len() == pow2(levels),
    ensures
        stage_value(x, w, levels, levels, pos, m) == dft_sum(x, w, pos) % m,
{
    lemma2_to64();
    lemma_pow1(w);
    let n = pow2(levels);
    lemma_fundamental_div_mod_converse(pos, n as int, 0, pos);
    let y = block_seq(x, levels, levels, 0);
    assert(bit_reverse(0, 0) == 0);
    assert forall|j: int| 0 <= j < n implies y[j] == x[j] by {
        assert(j * 1 == j);
    }
    assert(y =~= x);
}

/// One butterfly: the two entries of block `b` at places `k` and `k + 2^t`
/// after stage `t + 1`, from the entries at the same places after stage `t`
/// and the power `k 2^(levels - t - 1)` of the root.
pub proof fn lemma_stage_merge(
    x: Seq<int>,
    w: int,
    levels: nat,
    t: nat,
    b: nat,
    k: nat,
    lo: int,
    twiddle: int,
    right: int,
    m: int,
)
    requires
        m > 0,
        t < levels,
        x.len() == pow2(levels),
        primitive_root(w, pow2(levels), m),
        b < pow2((levels - t - 1) as nat),
        k < pow2(t),
        lo == b * pow2(t + 1) + k,
        congruent(twiddle, pow(w, k * pow2((levels - t - 1) as nat)), m),
        right == (stage_value(x, w, levels, t, lo + pow2(t), m) * twiddle) % m,
    ensures
        0 <= lo,
        lo + pow2(t) < pow2(levels),
        stage_value(x, w, levels, t + 1, lo, m) == (stage_value(x, w, levels, t, lo, m) + right)
            % m,
        stage_value(x, w, levels, t + 1, lo + pow2(t), m) == (stage_value(x, w, levels, t, lo, m)
            - right) % m,
{
    let rest: nat = (levels - t - 1) as nat;
    let stride: nat = pow2(rest);
    let half: nat = pow2(t);
    let size: nat = pow2(t + 1);
    let n: nat = pow2(levels);
    let hi: int = lo + half;
    lemma_pow2_unfold(t + 1);
    lemma_pow2_unfold((levels - t) as nat);
    lemma_pow2_pos(t);
    lemma_pow2_pos(rest);
    lemma_pow2_adds(rest, t + 1);
    lemma_pow2_adds(rest, t);
    lemma_pow2_unfold(levels);
    assert(size == 2 * half);
    assert(pow2((levels - t) as nat) == 2 * stride);
    assert(n == stride * size);
    assert(n / 2 == stride * half) by (nonlinear_arith)
        requires
            n == stride * size,
            size == 2 * half,
    ;
    lemma_mul_nonnegative(b as int, size as int);
    assert(hi < n) by (nonlinear_arith)
        requires
            hi == b * size + k + half,
            size == 2 * half,
            k < half,
            b < stride,
            n == stride * size,
    ;
    // positions
    lemma_fundamental_div_mod_converse(lo, size as int, b as int, k as int);
    lemma_fundamental_div_mod_converse(hi, size as int, b as int, (k + half) as int);
    assert(lo == (2 * b) * half + k && hi == (2 * b + 1) * half + k) by (nonlinear_arith)
        requires
            lo == b * size + k,
            hi == lo + half,
            size == 2 * half,
    ;
    lemma_fundamental_div_mod_converse(lo, half as int, (2 * b) as int, k as int);
    lemma_fundamental_div_mod_converse(hi, half as int, (2 * b + 1) as int, k as int);
    // the block and its halves
    let y = block_seq(x, levels, t + 1, b);
    let big_w = block_root(w, levels, t + 1);
    assert(y.len() == size);
    assert(y.len() / 2 == half);
    lemma_bit_reverse_double(b, rest);
    lemma_bit_reverse_bound(b, rest);
    let off: nat = bit_reverse(b, rest);
    let even_block = block_seq(x, levels, t, 2 * b);
    let odd_block = block_seq(x, levels, t, 2 * b + 1);
    assert((levels - (t + 1)) as nat == rest);
    assert((levels - t) as nat == rest + 1);
    assert forall|j: int| 0 <= j < half implies even_block[j] == evens(y)[j] && odd_block[j]
        == odds(y)[j] by {
        assert(j * (2 * stride) == (2 * j) * stride) by (nonlinear_arith);
        assert(j * (2 * stride) + stride == (2 * j + 1) * stride) by (nonlinear_arith);
        assert(y[2 * j] == x[(2 * j) * stride + off]);
        assert(y[2 * j + 1] == x[(2 * j + 1) * stride + off]);
    }
    assert(even_block =~= evens(y));
    assert(odd_block =~= odds(y));
    // the roots
    lemma_pow_adds(w, stride, stride);
    assert(block_root(w, levels, t) == big_w * big_w);
    lemma_pow_multiplies(w, stride, half);
    assert(pow(big_w, half) == pow(w, n / 2));
    lemma_pow_multiplies(w, stride, k);
    lemma_mul_is_commutative(stride as int, k as int);
    assert(pow(big_w, k) == pow(w, k * stride));
    lemma_pow2_pos(levels);
    assert(n >= 2);
    lemma_butterfly(y, big_w, k as int, m);
    // reduce
    let e: int = dft_sum(evens(y), big_w * big_w, k as int);
    let o: int = dft_sum(odds(y), big_w * big_w, k as int);
    let sv_lo: int = stage_value(x, w, levels, t, lo, m);
    let sv_hi: int = stage_value(x, w, levels, t, hi, m);
    assert(sv_lo == e % m);
    assert(sv_hi == o % m);
    lemma_congruent_mod(e, m);
    lemma_congruent_mod(o, m);
    lemma_congruent_mul(sv_hi, o, twiddle, pow(big_w, k), m);
    lemma_congruent_mod(sv_hi * twiddle, m);
    lemma_mul_is_commutative(o, pow(big_w, k));
    assert(congruent(right, pow(big_w, k) * o, m));
    lemma_congruent_add(sv_lo, e, right, pow(big_w, k) * o, m);
    lemma_congruent_sub(sv_lo, e, right, pow(big_w, k) * o, m);
}

} // verus!
