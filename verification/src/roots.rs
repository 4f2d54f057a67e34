//! Roots of unity of power-of-two order in the field.
//!
//! The order of the multiplicative group is `2^28` times an odd number,
//! the trace. A quadratic non-residue raised to the trace is a root of
//! unity of order `2^28`; its repeated squares have the smaller orders.

use crate::dft::{lemma_minus_one, lemma_pow_half_turn, primitive_root};
use crate::field::{
    all_wf, array_value, euler_power, legendre_spec, modulus, FieldElement, LegendreSymbol,
};
use crate::modmath::{lemma_congruent_mod, lemma_congruent_mul, lemma_congruent_pow};
use crate::nonresidue::lemma_least_nonresidue;
use crate::ntt::{log2_exact, NTTProcessor, MAX_LEVELS};
use vstd::arithmetic::div_mod::{lemma_mul_mod_noop, lemma_small_mod};
use vstd::arithmetic::mul::{lemma_mul_is_associative, lemma_mul_nonnegative};
use vstd::arithmetic::power::{lemma_pow1, lemma_pow_adds, lemma_pow_multiplies, pow};
use vstd::arithmetic::power2::{
    lemma2_to64, lemma_pow2_adds, lemma_pow2_pos, lemma_pow2_unfold, pow2,
};
use vstd::prelude::*;

verus! {

/// The number of times two divides the order of the multiplicative group.
pub const TWO_ADICITY: u32 = 28;

/// The odd part of the order of the multiplicative group.
pub open spec fn trace() -> int {
    81540058820840996586704275553141814055101440848469862132140264610111int
}

/// The limbs of the trace, lowest first.
pub fn trace_limbs() -> (limbs: [u64; 4])
    ensures
        array_value(limbs) == trace(),
{
    [0x9b9709143e1f593f, 0x181585d2833e8487, 0x131a029b85045b68, 0x30644e72e]
}

/// The order of the multiplicative group is `2^28` times the trace.
pub proof fn lemma_trace()
    ensures
        modulus() - 1 == trace() * pow2(28),
        (modulus() - 1) / 2 == trace() * pow2(27),
        trace() % 2 == 1,
{
    lemma2_to64();
}

/// The least quadratic non-residue of the field.
pub const NONRESIDUE: u64 = 5;

/// `q` is a quadratic non-residue and no smaller positive number is.
pub open spec fn least_nonresidue(q: int) -> bool {
    &&& 1 <= q
    &&& legendre_spec(q) == LegendreSymbol::QuadraticNonResidue
    &&& forall|c: int|
        1 <= c < q ==> #[trigger] legendre_spec(c) != LegendreSymbol::QuadraticNonResidue
}

/// Five is the least quadratic non-residue.
pub proof fn lemma_nonresidue()
    ensures
        least_nonresidue(NONRESIDUE as int),
        euler_power(NONRESIDUE as int) == modulus() - 1,
{
    lemma_least_nonresidue();
}

/// The root of order `2^level` that the non-residue `q` gives: `q` raised
/// to the trace and squared `28 - level` times.
pub open spec fn level_root(q: int, level: nat) -> int {
    pow(q, (trace() * pow2((28 - level) as nat)) as nat) % modulus()
}

/// The roots that a non-residue gives have the orders of their levels.
pub proof fn lemma_level_root_primitive(q: int, level: nat)
    requires
        euler_power(q) == modulus() - 1,
        level <= 28,
    ensures
        primitive_root(level_root(q, level), pow2(level), modulus()),
{
    let m: int = modulus();
    let rest: nat = (28 - level) as nat;
    let e: nat = (trace() * pow2(rest)) as nat;
    lemma_trace();
    lemma_minus_one(m);
    lemma_pow2_pos(rest);
    lemma_mul_nonnegative(trace(), pow2(rest) as int);
    lemma_congruent_mod(pow(q, e), m);
    if level == 0 {
        lemma2_to64();
        // q^(m - 1) is the square of q^((m - 1) / 2)
        let half: nat = (trace() * pow2(27)) as nat;
        assert(e == half + half);
        lemma_pow_adds(q, half, half);
        lemma_congruent_mul(pow(q, half), -1, pow(q, half), -1, m);
        assert((-1int) * (-1int) == 1);
    } else {
        let h: nat = pow2((level - 1) as nat);
        lemma_pow2_unfold(level);
        lemma_pow2_pos((level - 1) as nat);
        lemma_pow2_adds(rest, (level - 1) as nat);
        assert(pow2(level) / 2 == h);
        // (q^e)^h is q^((m - 1) / 2)
        lemma_pow_multiplies(q, e, h);
        lemma_mul_is_associative(trace(), pow2(rest) as int, h as int);
        assert(e * h == trace() * pow2(27));
        lemma_congruent_pow(level_root(q, level), pow(q, e), h, m);
    }
}

/// The least quadratic non-residue, which is five, and the roots of
/// unity that it gives: entry `i` of the list has order `2^i`, for `i`
/// from 0 to 28, and is five to the power of the trace times `2^(28 - i)`.
pub fn roots_of_unity() -> (result: (FieldElement, Vec<FieldElement>))
    ensures
        result.0.wf(),
        result.0.value() == NONRESIDUE,
        result.1@.len() == 29,
        all_wf(result.1@),
        forall|i: int|
            0 <= i <= 28 ==> (#[trigger] result.1@[i]).value() == level_root(
                NONRESIDUE as int,
                i as nat,
            ),
        forall|i: int|
            0 <= i <= 28 ==> primitive_root(
                (#[trigger] result.1@[i]).value(),
                pow2(i as nat),
                modulus(),
            ),
{
    let mut candidate: u64 = 1;
    proof {
        lemma_least_nonresidue();
    }
    while FieldElement::from_u64(candidate).legendre() != LegendreSymbol::QuadraticNonResidue
        invariant
            1 <= candidate <= 5,
            forall|c: int|
                1 <= c < 5 ==> #[trigger] legendre_spec(c) != LegendreSymbol::QuadraticNonResidue,
            legendre_spec(5) == LegendreSymbol::QuadraticNonResidue,
        decreases 5 - candidate,
    {
        candidate = candidate + 1;
    }
    proof {
        assert(candidate == 5);
    }
    let q: FieldElement = FieldElement::from_u64(candidate);
    let z: FieldElement = q.pow(trace_limbs());
    let mut roots: Vec<FieldElement> = Vec::new();
    for i in 0..29usize
        invariant
            roots@.len() == i,
            forall|j: int| 0 <= j < i ==> #[trigger] roots@[j] == FieldElement::zero_spec(),
    {
        roots.push(FieldElement::zero());
    }
    roots[28] = z;
    proof {
        lemma2_to64();
        assert(trace() * 1 == trace());
    }
    let mut level: usize = 28;
    while level > 0
        invariant
            level <= 28,
            roots@.len() == 29,
            q.wf(),
            forall|j: int|
                level <= j <= 28 ==> (#[trigger] roots@[j]).wf() && roots@[j].value()
                    == level_root(q.value(), j as nat),
        decreases level,
    {
        let above: FieldElement = roots[level];
        level = level - 1;
        let square: FieldElement = above.square();
        roots[level] = square;
        proof {
            let m: int = modulus();
            let rest: nat = (28 - (level + 1)) as nat;
            let e: nat = (trace() * pow2(rest)) as nat;
            lemma_mul_nonnegative(trace(), pow2(rest) as int);
            lemma_pow2_unfold(rest + 1);
            assert(trace() * pow2(rest + 1) == e + e) by (nonlinear_arith)
                requires
                    e == trace() * pow2(rest),
                    pow2(rest + 1) == 2 * pow2(rest),
            ;
            lemma_pow_adds(q.value(), e, e);
            lemma_mul_mod_noop(pow(q.value(), e), pow(q.value(), e), m);
        }
    }
    proof {
        assert forall|i: int| 0 <= i <= 28 implies primitive_root(
            (#[trigger] roots@[i]).value(),
            pow2(i as nat),
            modulus(),
        ) by {
            lemma_level_root_primitive(q.value(), i as nat);
        }
    }
    (q, roots)
}

/// `root` is the root of unity of order `n = 2^level` that the least
/// quadratic non-residue gives.
pub open spec fn is_groth16_root(root: int, n: nat) -> bool {
    exists|level: nat|
        level <= MAX_LEVELS && n == pow2(level) && root == #[trigger] level_root(
            NONRESIDUE as int,
            level,
        )
}

/// The root of unity of order `n` among those that the least
/// non-residue gives, if `n` is a power of two up to `2^28`.
pub fn get_groth16_root(n: usize) -> (result: Option<FieldElement>)
    ensures
        result is Some <==> exists|level: nat| level <= MAX_LEVELS && n == #[trigger] pow2(level),
        result matches Some(root) ==> root.wf() && primitive_root(
            root.value(),
            n as nat,
            modulus(),
        ) && is_groth16_root(root.value(), n as nat),
{
    match log2_exact(n) {
        None => None,
        Some(level) => {
            let (q, roots) = roots_of_unity();
            let root: FieldElement = roots[level as usize];
            proof {
                assert(root.value() == level_root(NONRESIDUE as int, level as nat));
            }
            Some(root)
        },
    }
}

/// The processor of cyclic transforms of length `domain_size` with the
/// root that the least non-residue gives.
pub fn fft_domain(domain_size: usize) -> (processor: NTTProcessor)
    requires
        exists|level: nat| level <= MAX_LEVELS && domain_size == #[trigger] pow2(level),
    ensures
        processor.wf(),
        processor.size() == domain_size,
        is_groth16_root(processor.transform_root(), domain_size as nat),
{
    let root: FieldElement = get_groth16_root(domain_size).unwrap();
    NTTProcessor::new(domain_size, root)
}

/// `r` is a power of `g` with an odd exponent below `n`, and no such
/// power has a smaller value.
pub open spec fn least_odd_power(r: int, g: int, n: nat) -> bool {
    &&& exists|e: nat| e < n && e % 2 == 1 && r == #[trigger] pow(g, e) % modulus()
    &&& forall|e: nat| e < n && e % 2 == 1 ==> r <= #[trigger] pow(g, e) % modulus()
}

/// `root` is the least of the odd powers of the root of unity of order
/// `n` that the least quadratic non-residue gives.
pub open spec fn is_minimal_root(root: int, n: nat) -> bool {
    exists|g: int| is_groth16_root(g, n) && #[trigger] least_odd_power(root, g, n)
}

/// The root of unity of order `n` with the least value among the odd
/// powers of the root that the least non-residue gives, if `n` is a power
/// of two up to `2^28`. For `n = 1` that is one.
pub fn get_minimal_root(n: usize) -> (result: Option<FieldElement>)
    ensures
        result is Some <==> exists|level: nat| level <= MAX_LEVELS && n == #[trigger] pow2(level),
        result matches Some(root) ==> root.wf() && primitive_root(
            root.value(),
            n as nat,
            modulus(),
        ) && (n >= 2 ==> is_minimal_root(root.value(), n as nat)),
{
    let start: FieldElement = match get_groth16_root(n) {
        None => { return None; },
        Some(root) => root,
    };
    if n < 2 {
        return Some(start);
    }
    let ghost g: int = start.value();
    let ghost m: int = modulus();
    let step: FieldElement = start.square();
    let mut current: FieldElement = start;
    let mut best: FieldElement = start;
    let ghost mut best_exponent: nat = 1;
    let count: usize = n / 2;
    proof {
        lemma_pow1(g);
        lemma_small_mod(g as nat, m as nat);
    }
    for i in 0..count
        invariant
            count == n / 2,
            n >= 2,
            n % 2 == 0,
            g == start.value(),
            m == modulus(),
            start.wf(),
            step.wf(),
            step.value() == (g * g) % m,
            current.wf(),
            current.value() == pow(g, (2 * i + 1) as nat) % m,
            best.wf(),
            best_exponent < n,
            best_exponent % 2 == 1,
            best.value() == pow(g, best_exponent) % m,
            forall|e: nat| e < 2 * i && e % 2 == 1 ==> best.value() <= #[trigger] pow(g, e) % m,
    {
        if current.lt(&best) {
            best = current;
            proof {
                best_exponent = (2 * i + 1) as nat;
            }
        }
        proof {
            let e: nat = (2 * i + 1) as nat;
            lemma_pow_adds(g, e, 2);
            lemma_pow_adds(g, 1, 1);
            lemma_pow1(g);
            assert((2 * (i + 1) + 1) as nat == e + 2);
            lemma_mul_mod_noop(pow(g, e), g * g, m);
            assert forall|f: nat| f < 2 * (i + 1) && f % 2 == 1 implies best.value()
                <= #[trigger] pow(g, f) % m by {
                if f >= 2 * i {
                    assert(f == e);
                }
            }
        }
        current = current.mul(&step);
    }
    proof {
        let levels: nat = choose|level: nat| level <= MAX_LEVELS && n == pow2(level);
        if levels == 0 {
            lemma2_to64();
        }
        lemma_pow2_unfold(levels);
        let h: nat = (n / 2) as nat;
        // (g^e)^h is (g^h)^e, minus one for odd e
        lemma_pow_half_turn(g, h, best_exponent, m);
        lemma_pow_multiplies(g, best_exponent, h);
        lemma_congruent_pow(best.value(), pow(g, best_exponent), h, m);
        lemma_congruent_mod(pow(g, best_exponent), m);
        assert(least_odd_power(best.value(), g, n as nat));
    }
    Some(best)
}

} // verus!
