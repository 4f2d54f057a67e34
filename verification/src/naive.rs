//! Transforms and convolutions taken term by term, as their definitions
//! say: the cyclic and the negacyclic convolution of two sequences of field
//! elements, and the transform of a sequence of numbers modulo a small
//! modulus.

use crate::dft::{dft, dft_sum, dft_term};
use crate::field::{all_wf, modulus, values, FieldElement};
use crate::modmath::{lemma_congruent_add, lemma_congruent_mod, lemma_congruent_sub, sum};
use crate::transform_laws::{
    cyclic_convolution, cyclic_term, negacyclic_convolution, negacyclic_term,
};
use vstd::arithmetic::div_mod::{
    lemma_fundamental_div_mod_converse, lemma_mod_bound, lemma_mul_mod_noop, lemma_small_mod,
};
use vstd::arithmetic::mul::lemma_mul_nonnegative;
use vstd::arithmetic::power::{lemma_pow0, lemma_pow_adds, pow};
use vstd::prelude::*;

verus! {

/// The cyclic convolution of `a` and `b`: entry `i` is the sum of the
/// products `a[j] b[k]` with `j + k` equal to `i` or to `i + n`.
pub fn cyclic_naive_mult(a: &[FieldElement], b: &[FieldElement]) -> (c: Vec<FieldElement>)
    requires
        a@.len() == b@.len(),
        all_wf(a@),
        all_wf(b@),
    ensures
        c@.len() == a@.len(),
        all_wf(c@),
        values(c@) == cyclic_convolution(values(a@), values(b@), modulus()),
{
    let n: usize = a.len();
    let ghost va: Seq<int> = values(a@);
    let ghost vb: Seq<int> = values(b@);
    let ghost m: int = modulus();
    let mut c: Vec<FieldElement> = Vec::with_capacity(n);
    for i in 0..n
        invariant
            n == a@.len(),
            n == b@.len(),
            all_wf(a@),
            all_wf(b@),
            va == values(a@),
            vb == values(b@),
            m == modulus(),
            c@.len() == i,
            forall|t: int|
                0 <= t < i ==> (#[trigger] c@[t]).wf() && c@[t].value() == sum(
                    cyclic_term(va, vb, t),
                    n as nat,
                ) % m,
    {
        let ghost f = cyclic_term(va, vb, i as int);
        let mut acc: FieldElement = FieldElement::zero();
        proof {
            lemma_small_mod(0, m as nat);
        }
        for j in 0..n
            invariant
                n == a@.len(),
                n == b@.len(),
                i < n,
                all_wf(a@),
                all_wf(b@),
                va == values(a@),
                vb == values(b@),
                m == modulus(),
                f == cyclic_term(va, vb, i as int),
                acc.wf(),
                acc.value() == sum(f, j as nat) % m,
        {
            let k: usize = if j <= i {
                i - j
            } else {
                i + (n - j)
            };
            proof {
                if j <= i {
                    lemma_small_mod((i - j) as nat, n as nat);
                } else {
                    lemma_fundamental_div_mod_converse(i - j, n as int, -1, i - j + n);
                }
                assert(f(j as int) == va[j as int] * vb[k as int]);
            }
            let product: FieldElement = a[j].mul(&b[k]);
            let ghost before: int = acc.value();
            acc = acc.add(&product);
            proof {
                lemma_congruent_mod(sum(f, j as nat), m);
                lemma_congruent_mod(f(j as int), m);
                lemma_congruent_add(before, sum(f, j as nat), product.value(), f(j as int), m);
                assert(sum(f, (j + 1) as nat) == sum(f, j as nat) + f(j as int));
            }
        }
        c.push(acc);
    }
    proof {
        assert(values(c@) =~= cyclic_convolution(va, vb, m));
    }
    c
}

/// The negacyclic convolution of `a` and `b`: entry `i` is the sum of the
/// products `a[j] b[k]` with `j + k` equal to `i`, less the sum of those
/// with `j + k` equal to `i + n`.
pub fn negacyclic_naive_mult(a: &[FieldElement], b: &[FieldElement]) -> (c: Vec<FieldElement>)
    requires
        a@.len() == b@.len(),
        all_wf(a@),
        all_wf(b@),
    ensures
        c@.len() == a@.len(),
        all_wf(c@),
        values(c@) == negacyclic_convolution(values(a@), values(b@), modulus()),
{
    let n: usize = a.len();
    let ghost va: Seq<int> = values(a@);
    let ghost vb: Seq<int> = values(b@);
    let ghost m: int = modulus();
    let mut c: Vec<FieldElement> = Vec::with_capacity(n);
    for i in 0..n
        invariant
            n == a@.len(),
            n == b@.len(),
            all_wf(a@),
            all_wf(b@),
            va == values(a@),
            vb == values(b@),
            m == modulus(),
            c@.len() == i,
            forall|t: int|
                0 <= t < i ==> (#[trigger] c@[t]).wf() && c@[t].value() == sum(
                    negacyclic_term(va, vb, t),
                    n as nat,
                ) % m,
    {
        let ghost f = negacyclic_term(va, vb, i as int);
        let mut acc: FieldElement = FieldElement::zero();
        proof {
            lemma_small_mod(0, m as nat);
        }
        for j in 0..n
            invariant
                n == a@.len(),
                n == b@.len(),
                i < n,
                all_wf(a@),
                all_wf(b@),
                va == values(a@),
                vb == values(b@),
                m == modulus(),
                f == negacyclic_term(va, vb, i as int),
                acc.wf(),
                acc.value() == sum(f, j as nat) % m,
        {
            let ghost before: int = acc.value();
            proof {
                lemma_congruent_mod(sum(f, j as nat), m);
                assert(sum(f, (j + 1) as nat) == sum(f, j as nat) + f(j as int));
            }
            if j <= i {
                let product: FieldElement = a[j].mul(&b[i - j]);
                acc = acc.add(&product);
                proof {
                    lemma_congruent_mod(va[j as int] * vb[i - j], m);
                    lemma_congruent_add(
                        before,
                        sum(f, j as nat),
                        product.value(),
                        va[j as int] * vb[i - j],
                        m,
                    );
                }
            } else {
                let product: FieldElement = a[j].mul(&b[i + (n - j)]);
                acc = acc.sub(&product);
                proof {
                    lemma_congruent_mod(va[j as int] * vb[i - j + n], m);
                    lemma_congruent_sub(
                        before,
                        sum(f, j as nat),
                        product.value(),
                        va[j as int] * vb[i - j + n],
                        m,
                    );
                }
            }
        }
        c.push(acc);
    }
    proof {
        assert(values(c@) =~= negacyclic_convolution(va, vb, m));
    }
    c
}

/// The numbers of a list of machine integers.
pub open spec fn numbers(x: Seq<u64>) -> Seq<int> {
    Seq::new(x.len(), |i: int| x[i] as int)
}

/// The transform of `x` with the root `root` modulo a modulus of at most
/// 32 bits, by the value of the polynomial with the coefficients `x` at
/// every power of the root.
pub fn direct_transform(x: &[u64], root: u64, modulus: u64) -> (y: Vec<u64>)
    requires
        1 < modulus <= 0x1_0000_0000,
    ensures
        numbers(y@) == dft(numbers(x@), root as int, modulus as int),
{
    let n: usize = x.len();
    let ghost vx: Seq<int> = numbers(x@);
    let ghost w: int = root as int;
    let ghost m: int = modulus as int;
    let mut y: Vec<u64> = Vec::with_capacity(n);
    let step: u64 = root % modulus;
    let mut point: u64 = 1;
    proof {
        lemma_pow0(w);
        lemma_small_mod(1, m as nat);
    }
    for k in 0..n
        invariant
            n == x@.len(),
            vx == numbers(x@),
            w == root,
            m == modulus,
            1 < modulus <= 0x1_0000_0000,
            step == root % modulus,
            point == pow(w, k as nat) % m,
            y@.len() == k,
            forall|t: int| 0 <= t < k ==> (#[trigger] y@[t]) as int == dft_sum(vx, w, t) % m,
    {
        let ghost f = dft_term(vx, w, k as int);
        let mut acc: u64 = 0;
        let mut power: u64 = 1;
        proof {
            lemma_small_mod(0, m as nat);
            lemma_small_mod(1, m as nat);
            lemma_pow0(w);
            assert(0 * k == 0);
        }
        for j in 0..n
            invariant
                n == x@.len(),
                vx == numbers(x@),
                w == root,
                m == modulus,
                1 < modulus <= 0x1_0000_0000,
                k < n,
                point == pow(w, k as nat) % m,
                f == dft_term(vx, w, k as int),
                power == pow(w, (j * k) as nat) % m,
                acc == sum(f, j as nat) % m,
        {
            let entry: u64 = x[j] % modulus;
            proof {
                lemma_mod_bound(x@[j as int] as int, m);
                lemma_mod_bound(pow(w, (j * k) as nat), m);
                lemma_mod_bound(pow(w, k as nat), m);
                lemma_mod_bound(sum(f, j as nat), m);
                assert(entry * power < 0x1_0000_0000 * 0x1_0000_0000) by (nonlinear_arith)
                    requires
                        entry < 0x1_0000_0000,
                        power < 0x1_0000_0000,
                ;
                assert(power * point < 0x1_0000_0000 * 0x1_0000_0000) by (nonlinear_arith)
                    requires
                        power < 0x1_0000_0000,
                        point < 0x1_0000_0000,
                ;
            }
            let term: u64 = (entry * power) % modulus;
            acc = (acc + term) % modulus;
            let next: u64 = (power * point) % modulus;
            proof {
                let e: nat = (j * k) as nat;
                lemma_mul_nonnegative(j as int, k as int);
                lemma_mul_nonnegative(j + 1, k as int);
                assert((j + 1) * k == e + k) by (nonlinear_arith)
                    requires
                        e == j * k,
                ;
                lemma_pow_adds(w, e, k as nat);
                lemma_mul_mod_noop(pow(w, e), pow(w, k as nat), m);
                lemma_mul_mod_noop(vx[j as int], pow(w, e), m);
                assert(f(j as int) == vx[j as int] * pow(w, e));
                lemma_congruent_mod(sum(f, j as nat), m);
                lemma_congruent_mod(f(j as int), m);
                lemma_congruent_add(
                    sum(f, j as nat) % m,
                    sum(f, j as nat),
                    term as int,
                    f(j as int),
                    m,
                );
                assert(sum(f, (j + 1) as nat) == sum(f, j as nat) + f(j as int));
            }
            power = next;
        }
        y.push(acc);
        proof {
            lemma_mod_bound(pow(w, k as nat), m);
            assert(point * step < 0x1_0000_0000 * 0x1_0000_0000) by (nonlinear_arith)
                requires
                    point < 0x1_0000_0000,
                    step < 0x1_0000_0000,
            ;
            lemma_pow_adds(w, k as nat, 1);
            vstd::arithmetic::power::lemma_pow1(w);
            lemma_mul_mod_noop(pow(w, k as nat), w, m);
        }
        point = (point * step) % modulus;
    }
    proof {
        assert(numbers(y@) =~= dft(vx, w, m));
    }
    y
}

} // verus!
