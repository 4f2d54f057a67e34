//! Bit reversal of an index, as used by the in-place transform's permutation.

use vstd::arithmetic::power2::{lemma2_to64, lemma_pow2_pos, lemma_pow2_unfold, pow2};
use vstd::prelude::*;

verus! {

/// The number whose `bits` lowest binary digits are those of `x` in the
/// opposite order: digit `i` of the result is digit `bits - 1 - i` of `x`.
/// Digits of `x` from position `bits` on are ignored.
pub open spec fn bit_reverse(x: nat, bits: nat) -> nat
    decreases bits,
{
    if bits == 0 {
        0
    } else {
        (x % 2) * pow2((bits - 1) as nat) + bit_reverse(x / 2, (bits - 1) as nat)
    }
}

/// The five exchange layers on a 32-bit word: neighbouring bits, pairs,
/// nibbles, bytes, and the two halves.
spec fn exchange32(x: u32) -> u32 {
    let a: u32 = ((x & 0xaaaaaaaau32) >> 1u32) | ((x & 0x55555555u32) << 1u32);
    let b: u32 = ((a & 0xccccccccu32) >> 2u32) | ((a & 0x33333333u32) << 2u32);
    let c: u32 = ((b & 0xf0f0f0f0u32) >> 4u32) | ((b & 0x0f0f0f0fu32) << 4u32);
    let d: u32 = ((c & 0xff00ff00u32) >> 8u32) | ((c & 0x00ff00ffu32) << 8u32);
    (d << 16u32) | (d >> 16u32)
}

/// The 64-bit reversal assembled from the reversals of the two halves.
spec fn exchange64(x: u64) -> u64 {
    (exchange32((x >> 32u64) as u32) as u64) | ((exchange32(x as u32) as u64) << 32u64)
}

proof fn lemma_exchange64_lowest(x: u64)
    ensures
        exchange64(x) >> 63u64 == x % 2,
{
    assert(exchange64(x) >> 63u64 == x % 2) by (bit_vector);
}

proof fn lemma_exchange64_step(x: u64, n: u64)
    requires
        1 <= n <= 63,
    ensures
        exchange64(x) >> ((63 - n) as u64) == (if x % 2 == 1 {
            1u64 << n
        } else {
            0u64
        }) + (exchange64(x / 2) >> ((64 - n) as u64)),
        (exchange64(x / 2) >> ((64 - n) as u64)) < (1u64 << n),
{
    assert(exchange64(x) >> ((63 - n) as u64) == (if x % 2 == 1 {
        1u64 << n
    } else {
        0u64
    }) + (exchange64(x / 2) >> ((64 - n) as u64)) && (exchange64(x / 2) >> ((64 - n) as u64)) < (1u64
        << n)) by (bit_vector)
        requires
            1 <= n <= 63,
    ;
}

proof fn lemma_digit_times(digit: nat, weight: nat)
    requires
        digit <= 1,
    ensures
        digit * weight == (if digit == 1 {
            weight
        } else {
            0
        }),
{
    assert(digit * weight == (if digit == 1 {
        weight
    } else {
        0
    })) by (nonlinear_arith)
        requires
            digit <= 1,
    ;
}

proof fn lemma_shl_one_is_pow2(n: u64)
    requires
        n < 64,
    ensures
        (1u64 << n) == pow2(n as nat),
{
    vstd::bits::lemma_u64_pow2_no_overflow(n as nat);
    vstd::bits::lemma_u64_shl_is_mul(1u64, n);
}

/// The exchange network, shifted down to its top `n` bits, is the
/// reversal of the low `n` bits.
proof fn lemma_exchange64_is_reverse(x: u64, n: u64)
    requires
        1 <= n <= 64,
    ensures
        exchange64(x) >> ((64 - n) as u64) == bit_reverse(x as nat, n as nat),
    decreases n,
{
    if n == 1 {
        lemma_exchange64_lowest(x);
        lemma2_to64();
        assert(bit_reverse((x / 2) as nat, 0) == 0);
        assert(bit_reverse(x as nat, 1) == (x as nat % 2) * pow2(0) + bit_reverse(
            x as nat / 2,
            0,
        ));
    } else {
        let m: u64 = (n - 1) as u64;
        lemma_exchange64_step(x, m);
        lemma_exchange64_is_reverse(x / 2, m);
        lemma_shl_one_is_pow2(m);
        assert((63 - m) as u64 == (64 - n) as u64);
        assert(bit_reverse(x as nat, n as nat) == (x as nat % 2) * pow2(m as nat) + bit_reverse(
            x as nat / 2,
            m as nat,
        ));
        lemma_digit_times(x as nat % 2, pow2(m as nat));
    }
}

/// A reversal on `bits` digits stays below `2^bits`.
pub proof fn lemma_bit_reverse_bound(x: nat, bits: nat)
    ensures
        bit_reverse(x, bits) < pow2(bits),
    decreases bits,
{
    if bits == 0 {
        lemma2_to64();
    } else {
        let b: nat = (bits - 1) as nat;
        lemma_bit_reverse_bound(x / 2, b);
        lemma_pow2_unfold(bits);
        lemma_pow2_pos(b);
        lemma_digit_times(x % 2, pow2(b));
    }
}

/// Reversal with the highest of `bits + 1` digits split off: the digit
/// moves to the lowest place and the reversal of the rest moves up by one.
pub proof fn lemma_bit_reverse_top(low: nat, top: nat, bits: nat)
    requires
        low < pow2(bits),
        top <= 1,
    ensures
        bit_reverse(low + top * pow2(bits), bits + 1) == 2 * bit_reverse(low, bits) + top,
    decreases bits,
{
    lemma_digit_times(top, pow2(bits));
    if bits == 0 {
        lemma2_to64();
        assert(bit_reverse(low, 0) == 0);
        assert(bit_reverse(top / 2, 0) == 0);
        assert(bit_reverse(top, 1) == (top % 2) * pow2(0) + bit_reverse(top / 2, 0));
        lemma_digit_times(top % 2, pow2(0));
    } else {
        let b: nat = (bits - 1) as nat;
        let whole: nat = low + top * pow2(bits);
        lemma_pow2_unfold(bits);
        lemma_pow2_pos(b);
        lemma_digit_times(top, pow2(b));
        assert(whole % 2 == low % 2 && whole / 2 == low / 2 + top * pow2(b)) by {
            if top == 1 {
                assert(whole == low + 2 * pow2(b));
            }
        }
        lemma_bit_reverse_top(low / 2, top, b);
        assert(bit_reverse(whole, bits + 1) == (whole % 2) * pow2(bits) + bit_reverse(
            whole / 2,
            bits,
        ));
        assert(bit_reverse(low, bits) == (low % 2) * pow2(b) + bit_reverse(low / 2, b));
        lemma_digit_times(low % 2, pow2(bits));
        lemma_digit_times(low % 2, pow2(b));
    }
}

/// Reversing twice on the same number of digits gives the number back.
pub proof fn lemma_bit_reverse_involution(x: nat, bits: nat)
    requires
        x < pow2(bits),
    ensures
        bit_reverse(bit_reverse(x, bits), bits) == x,
    decreases bits,
{
    if bits == 0 {
        lemma2_to64();
    } else {
        let b: nat = (bits - 1) as nat;
        lemma_pow2_unfold(bits);
        lemma_bit_reverse_involution(x / 2, b);
        lemma_bit_reverse_bound(x / 2, b);
        lemma_bit_reverse_top(bit_reverse(x / 2, b), x % 2, b);
        assert(bit_reverse(x, bits) == (x % 2) * pow2(b) + bit_reverse(x / 2, b));
    }
}

/// Reversal of an even and of an odd number on one digit more.
pub proof fn lemma_bit_reverse_double(x: nat, bits: nat)
    ensures
        bit_reverse(2 * x, bits + 1) == bit_reverse(x, bits),
        bit_reverse(2 * x + 1, bits + 1) == pow2(bits) + bit_reverse(x, bits),
{
    assert((2 * x) / 2 == x && (2 * x + 1) / 2 == x);
    assert(bit_reverse(2 * x, bits + 1) == ((2 * x) % 2) * pow2(bits) + bit_reverse(
        (2 * x) / 2,
        bits,
    ));
    assert(bit_reverse(2 * x + 1, bits + 1) == ((2 * x + 1) % 2) * pow2(bits) + bit_reverse(
        (2 * x + 1) / 2,
        bits,
    ));
    lemma_digit_times((2 * x) % 2, pow2(bits));
    lemma_digit_times((2 * x + 1) % 2, pow2(bits));
}

/// Reverses the 32 bits of a word.
pub fn reverse_bits32(input: u32) -> (output: u32)
    ensures
        output == bit_reverse(input as nat, 32),
{
    let mut output: u32 = ((input & 0xaaaaaaaa) >> 1) | ((input & 0x55555555) << 1);
    output = ((output & 0xcccccccc) >> 2) | ((output & 0x33333333) << 2);
    output = ((output & 0xf0f0f0f0) >> 4) | ((output & 0x0f0f0f0f) << 4);
    output = ((output & 0xff00ff00) >> 8) | ((output & 0x00ff00ff) << 8);
    let result: u32 = (output << 16) | (output >> 16);
    proof {
        assert(result == exchange32(input));
        let wide: u64 = input as u64;
        assert(exchange32(input) as u64 == exchange64(wide) >> 32u64) by (bit_vector)
            requires
                wide == input as u64,
        ;
        lemma_exchange64_is_reverse(wide, 32);
    }
    result
}

/// Reverses the 64 bits of a word.
pub fn reverse_bits(input: u64) -> (output: u64)
    ensures
        output == bit_reverse(input as nat, 64),
{
    let high: u32 = (input >> 32) as u32;
    let low: u32 = input as u32;
    let result: u64 = reverse_bits32(high) as u64 | (reverse_bits32(low) as u64) << 32;
    proof {
        lemma_exchange64_is_reverse(input, 64);
        lemma_exchange64_is_reverse(high as u64, 32);
        lemma_exchange64_is_reverse(low as u64, 32);
        let rh: u32 = exchange32(high);
        let rl: u32 = exchange32(low);
        assert(rh as u64 == exchange64(high as u64) >> 32u64) by (bit_vector)
            requires
                rh == exchange32(high),
        ;
        assert(rl as u64 == exchange64(low as u64) >> 32u64) by (bit_vector)
            requires
                rl == exchange32(low),
        ;
        assert(exchange64(input) >> 0u64 == exchange64(input)) by (bit_vector);
    }
    result
}

/// Reverses the low `num_bits` bits of `input`: the whole word is reversed
/// and the result moved down by `64 - num_bits` places.
pub fn reverse_n_bits(input: u64, num_bits: u64) -> (output: u64)
    requires
        1 <= num_bits <= 64,
    ensures
        output == bit_reverse(input as nat, num_bits as nat),
        output < pow2(num_bits as nat),
{
    let whole: u64 = reverse_bits(input);
    proof {
        lemma_exchange64_is_reverse(input, 64);
        lemma_exchange64_is_reverse(input, num_bits);
        lemma_bit_reverse_bound(input as nat, num_bits as nat);
        assert(exchange64(input) >> 0u64 == exchange64(input)) by (bit_vector);
    }
    whole >> (64 - num_bits)
}

} // verus!
