//! The number-theoretic transform of power-of-two length: an iterative
//! radix-2 transform in place, its inverse, and the twists that turn the
//! cyclic transform into a negacyclic one.

use crate::bits::{
    bit_reverse, lemma_bit_reverse_bound, lemma_bit_reverse_involution, reverse_n_bits,
};
use crate::dft::{
    dft, dft_sum, inverse_dft, twisted, lemma_inverse_is_primitive, lemma_root_is_not_zero,
    lemma_square_is_primitive, primitive_root,
};
use crate::field::{all_wf, modulus, values, FieldElement};
use crate::modmath::{congruent, lemma_congruent_mod};
use crate::stages::{lemma_stage_first, lemma_stage_last, lemma_stage_merge, stage_value};
use ark_bn254::Fr;
use ark_ff::{BigInt, PrimeField};
use ark_poly::{EvaluationDomain, Radix2EvaluationDomain};
use vstd::arithmetic::div_mod::{
    lemma_fundamental_div_mod_converse, lemma_mul_mod_noop_left, lemma_mul_mod_noop_right,
    lemma_small_mod,
};
use vstd::arithmetic::power::{lemma_pow0, lemma_pow1, lemma_pow_adds, pow};
use vstd::arithmetic::power2::{
    lemma2_to64, lemma_pow2_adds, lemma_pow2_pos, lemma_pow2_strictly_increases,
    lemma_pow2_unfold, pow2,
};
use vstd::prelude::*;

verus! {

/// The largest number of levels: the field has roots of unity of order
/// `2^28` and of no higher power of two.
pub const MAX_LEVELS: u32 = 28;

/// The powers `root^0, ..., root^(count - 1)`.
pub open spec fn is_power_table(table: Seq<FieldElement>, root: int, count: nat) -> bool {
    &&& table.len() == count
    &&& all_wf(table)
    &&& forall|i: int| 0 <= i < count ==> (#[trigger] table[i]).value() == pow(root, i as nat)
        % modulus()
}

/// The exponent of a power of two, if `n` is one that this library's
/// transforms can have as their length.
pub fn log2_exact(n: usize) -> (levels: Option<u32>)
    ensures
        match levels {
            Some(l) => l <= MAX_LEVELS && n == pow2(l as nat),
            None => forall|l: nat| l <= MAX_LEVELS ==> n != #[trigger] pow2(l),
        },
{
    let mut power: usize = 1;
    let mut l: u32 = 0;
    proof {
        lemma2_to64();
    }
    while power < n && l < MAX_LEVELS
        invariant
            l <= MAX_LEVELS,
            power == pow2(l as nat),
            power <= 0x1000_0000,
            forall|e: nat| e < l ==> #[trigger] pow2(e) < n,
        decreases MAX_LEVELS - l,
    {
        proof {
            lemma_pow2_unfold((l + 1) as nat);
            lemma_pow2_strictly_increases(l as nat, 28);
            lemma_pow2_strictly_increases((l + 1) as nat, 29);
            lemma2_to64();
        }
        power = power * 2;
        l = l + 1;
    }
    if power == n {
        Some(l)
    } else {
        proof {
            assert forall|e: nat| e <= MAX_LEVELS implies n != #[trigger] pow2(e) by {
                if e > l {
                    lemma_pow2_strictly_increases(l as nat, e);
                }
            }
        }
        None
    }
}

/// The table of the first `n / 2` powers of `root`.
pub fn create_pow_table(n: usize, root: FieldElement) -> (table: Vec<FieldElement>)
    requires
        root.wf(),
    ensures
        is_power_table(table@, root.value(), (n / 2) as nat),
{
    let count: usize = n >> 1;
    assert(n >> 1usize == n / 2) by (bit_vector);
    let mut table: Vec<FieldElement> = Vec::with_capacity(count);
    let mut tmp: FieldElement = FieldElement::one();
    proof {
        lemma_pow0(root.value());
        lemma_small_mod(1, modulus() as nat);
    }
    for i in 0..count
        invariant
            root.wf(),
            tmp.wf(),
            tmp.value() == pow(root.value(), i as nat) % modulus(),
            is_power_table(table@, root.value(), i as nat),
    {
        table.push(tmp);
        tmp = tmp.mul(&root);
        proof {
            lemma_pow_adds(root.value(), i as nat, 1);
            lemma_pow1(root.value());
            lemma_mul_mod_noop_left(pow(root.value(), i as nat), root.value(), modulus());
        }
    }
    table
}

/// Multiplies entry `i` by `root^i`, for every `i`.
fn twist(a: &mut Vec<FieldElement>, root: FieldElement)
    requires
        root.wf(),
        all_wf(old(a)@),
    ensures
        final(a)@.len() == old(a)@.len(),
        all_wf(final(a)@),
        values(final(a)@) == twisted(values(old(a)@), root.value(), modulus()),
{
    let mut tmp: FieldElement = FieldElement::one();
    let len: usize = a.len();
    proof {
        lemma_pow0(root.value());
        lemma_small_mod(1, modulus() as nat);
    }
    for i in 0..len
        invariant
            len == a@.len(),
            a@.len() == old(a)@.len(),
            root.wf(),
            tmp.wf(),
            tmp.value() == pow(root.value(), i as nat) % modulus(),
            forall|j: int| 0 <= j < i ==> (#[trigger] a@[j]).wf() && a@[j].value() == (old(a)@[j].value()
                * pow(root.value(), j as nat)) % modulus(),
            forall|j: int| i <= j < len ==> #[trigger] a@[j] == old(a)@[j],
            all_wf(old(a)@),
    {
        let current: FieldElement = a[i];
        assert(current == old(a)@[i as int]);
        let product: FieldElement = current.mul(&tmp);
        a[i] = product;
        tmp = tmp.mul(&root);
        proof {
            let p: int = pow(root.value(), i as nat);
            lemma_mul_mod_noop_right(current.value(), p, modulus());
            lemma_pow_adds(root.value(), i as nat, 1);
            lemma_pow1(root.value());
            lemma_mul_mod_noop_left(p, root.value(), modulus());
        }
    }
    proof {
        assert(values(a@) =~= twisted(values(old(a)@), root.value(), modulus()));
    }
}

/// Moves every entry to the place whose index is the bit reversal of its
/// own on `levels` bits.
fn bit_reverse_permute(input: &mut Vec<FieldElement>, levels: u32)
    requires
        levels <= MAX_LEVELS,
        old(input)@.len() == pow2(levels as nat),
    ensures
        final(input)@.len() == old(input)@.len(),
        forall|k: int|
            0 <= k < old(input)@.len() ==> #[trigger] bit_reverse(k as nat, levels as nat) < old(
                input,
            )@.len(),
        forall|k: int|
            0 <= k < old(input)@.len() ==> #[trigger] final(input)@[k] == old(input)@[bit_reverse(
                k as nat,
                levels as nat,
            ) as int],
{
    let n: usize = input.len();
    let ghost bits: nat = levels as nat;
    if levels == 0 {
        proof {
            lemma2_to64();
            assert(bit_reverse(0, 0) == 0);
            assert(n == 1);
            assert forall|k: int| 0 <= k < n implies #[trigger] bit_reverse(
                k as nat,
                levels as nat,
            ) < n by {
                assert(k == 0);
            }
        }
        return ;
    }
    for i in 0..n
        invariant
            1 <= levels <= MAX_LEVELS,
            bits == levels as nat,
            n == pow2(bits),
            input@.len() == n,
            old(input)@.len() == n,
            forall|k: int|
                0 <= k < n ==> #[trigger] input@[k] == (if k < i || bit_reverse(k as nat, bits)
                    < i {
                    old(input)@[bit_reverse(k as nat, bits) as int]
                } else {
                    old(input)@[k]
                }),
    {
        let j: usize = reverse_n_bits(i as u64, levels as u64) as usize;
        proof {
            lemma_bit_reverse_involution(i as nat, bits);
            assert(bit_reverse(j as nat, bits) == i);
            assert forall|k: int| 0 <= k < n && #[trigger] bit_reverse(k as nat, bits) == i implies k
                == j by {
                lemma_bit_reverse_involution(k as nat, bits);
            }
        }
        if j > i {
            let first: FieldElement = input[i];
            let second: FieldElement = input[j];
            input[i] = second;
            input[j] = first;
        }
    }
    proof {
        assert forall|k: int| 0 <= k < n implies #[trigger] bit_reverse(k as nat, bits) < n by {
            lemma_bit_reverse_bound(k as nat, bits);
        }
    }
}

/// The stage that the entry at `pos` is at while the butterflies of the
/// block that starts at `start` are under way: `done` of them are made.
spec fn stage_at(pos: int, t: nat, start: int, done: int, half: int) -> nat {
    if pos < start || (start <= pos < start + done) || (start + half <= pos < start + half + done) {
        t + 1
    } else {
        t
    }
}

/// The butterfly stages on a buffer that holds the input in bit-reversed
/// order: stage after stage, pairs of blocks are merged into blocks of
/// twice the size.
fn butterflies(
    input: &mut Vec<FieldElement>,
    table: &Vec<FieldElement>,
    n: usize,
    levels: u32,
    Ghost(w): Ghost<int>,
    Ghost(x): Ghost<Seq<int>>,
)
    requires
        levels <= MAX_LEVELS,
        n == pow2(levels as nat),
        old(input)@.len() == n,
        all_wf(old(input)@),
        x.len() == n,
        forall|pos: int|
            0 <= pos < n ==> (#[trigger] old(input)@[pos]).value() == stage_value(
                x,
                w,
                levels as nat,
                0,
                pos,
                modulus(),
            ),
        is_power_table(table@, w, (n / 2) as nat),
        primitive_root(w, n as nat, modulus()),
    ensures
        final(input)@.len() == n,
        all_wf(final(input)@),
        forall|pos: int|
            0 <= pos < n ==> (#[trigger] final(input)@[pos]).value() == stage_value(
                x,
                w,
                levels as nat,
                levels as nat,
                pos,
                modulus(),
            ),
{
    let ghost bits: nat = levels as nat;
    let ghost mut t: nat = 0;
    let mut size: usize = 2;
    proof {
        lemma2_to64();
    }
    while size <= n
        invariant
            levels <= MAX_LEVELS,
            bits == levels as nat,
            n == pow2(bits),
            t <= bits,
            size == pow2(t + 1),
            input@.len() == n,
            all_wf(input@),
            x.len() == n,
            forall|pos: int|
                0 <= pos < n ==> (#[trigger] input@[pos]).value() == stage_value(
                    x,
                    w,
                    bits,
                    t,
                    pos,
                    modulus(),
                ),
            is_power_table(table@, w, (n / 2) as nat),
            primitive_root(w, n as nat, modulus()),
        decreases bits - t,
    {
        let ghost rest: nat = (bits - t - 1) as nat;
        proof {
            if t >= bits {
                lemma_pow2_strictly_increases(bits, t + 1);
            }
            lemma_pow2_unfold(t + 1);
            lemma_pow2_pos(t);
            lemma_pow2_pos(rest);
            lemma_pow2_adds(rest, t + 1);
            lemma_pow2_unfold(bits);
            if t + 1 < 29 {
                lemma_pow2_strictly_increases(t + 1, 29);
            }
            lemma2_to64();
            assert(t < bits);
        }
        let halfsize: usize = size >> 1;
        assert(size >> 1usize == size / 2) by (bit_vector);
        let tablestep: usize = n / size;
        proof {
            lemma_fundamental_div_mod_converse(n as int, size as int, pow2(rest) as int, 0);
            assert(tablestep == pow2(rest));
            assert(halfsize == pow2(t));
            assert(n / 2 == tablestep * halfsize) by (nonlinear_arith)
                requires
                    n == tablestep * size,
                    size == 2 * halfsize,
            ;
        }
        let mut i: usize = 0;
        let ghost mut b: nat = 0;
        while i < n
            invariant
                bits == levels as nat,
                bits <= 28,
                t < bits,
                rest == bits - t - 1,
                n == pow2(bits),
                size == pow2(t + 1),
                halfsize == pow2(t),
                tablestep == pow2(rest),
                size == 2 * halfsize,
                n == tablestep * size,
                n / 2 == tablestep * halfsize,
                n <= 0x1000_0000,
                halfsize >= 1,
                i == b * size,
                b <= tablestep,
                input@.len() == n,
                all_wf(input@),
                x.len() == n,
                forall|pos: int|
                    0 <= pos < n ==> (#[trigger] input@[pos]).value() == stage_value(
                        x,
                        w,
                        bits,
                        if pos < i {
                            t + 1
                        } else {
                            t
                        },
                        pos,
                        modulus(),
                    ),
                is_power_table(table@, w, (n / 2) as nat),
                primitive_root(w, n as nat, modulus()),
            decreases n - i,
        {
            proof {
                assert(b < tablestep) by (nonlinear_arith)
                    requires
                        i == b * size,
                        i < n,
                        n == tablestep * size,
                        b <= tablestep,
                ;
                assert(i + size <= n) by (nonlinear_arith)
                    requires
                        i == b * size,
                        n == tablestep * size,
                        b < tablestep,
                ;
            }
            let mut k: usize = 0;
            let mut j: usize = i;
            let ghost mut done: nat = 0;
            while j < i + halfsize
                invariant
                    bits == levels as nat,
                    bits <= 28,
                    t < bits,
                    rest == bits - t - 1,
                    n == pow2(bits),
                    size == pow2(t + 1),
                    halfsize == pow2(t),
                    tablestep == pow2(rest),
                    size == 2 * halfsize,
                    n / 2 == tablestep * halfsize,
                    n <= 0x1000_0000,
                    i == b * size,
                    b < tablestep,
                    i + size <= n,
                    j == i + done,
                    done <= halfsize,
                    k == done * tablestep,
                    input@.len() == n,
                    all_wf(input@),
                    x.len() == n,
                    forall|pos: int|
                        0 <= pos < n ==> (#[trigger] input@[pos]).value() == stage_value(
                            x,
                            w,
                            bits,
                            stage_at(pos, t, i as int, done as int, halfsize as int),
                            pos,
                            modulus(),
                        ),
                    is_power_table(table@, w, (n / 2) as nat),
                    primitive_root(w, n as nat, modulus()),
                decreases i + halfsize - j,
            {
                proof {
                    let half_n: int = n as int / 2;
                    lemma_pow2_pos(rest);
                    assert(done * tablestep < half_n && (done + 1) * tablestep <= half_n) by (nonlinear_arith)
                        requires
                            done < halfsize,
                            half_n == tablestep * halfsize,
                            tablestep >= 1,
                    ;
                    assert((done + 1) * tablestep == done * tablestep + tablestep) by (nonlinear_arith);
                }
                let l: usize = j + halfsize;
                let left: FieldElement = input[j];
                let upper: FieldElement = input[l];
                let factor: FieldElement = table[k];
                let right: FieldElement = upper.mul(&factor);
                let ghost before: Seq<FieldElement> = input@;
                proof {
                    assert(stage_at(j as int, t, i as int, done as int, halfsize as int) == t);
                    assert(stage_at(l as int, t, i as int, done as int, halfsize as int) == t);
                    assert(before[j as int].value() == stage_value(x, w, bits, t, j as int, modulus()));
                    assert(before[l as int].value() == stage_value(x, w, bits, t, l as int, modulus()));
                    lemma_congruent_mod(pow(w, k as nat), modulus());
                    lemma_stage_merge(
                        x,
                        w,
                        bits,
                        t,
                        b,
                        done,
                        j as int,
                        factor.value(),
                        right.value(),
                        modulus(),
                    );
                }
                let sum: FieldElement = left.add(&right);
                let difference: FieldElement = left.sub(&right);
                input[j] = sum;
                input[l] = difference;
                k = k + tablestep;
                j = j + 1;
                proof {
                    assert forall|pos: int| 0 <= pos < n implies (#[trigger] input@[pos]).value()
                        == stage_value(
                        x,
                        w,
                        bits,
                        stage_at(pos, t, i as int, (done + 1) as int, halfsize as int),
                        pos,
                        modulus(),
                    ) by {
                        if pos != j - 1 && pos != l {
                            assert(input@[pos] == before[pos]);
                            assert(stage_at(pos, t, i as int, (done + 1) as int, halfsize as int)
                                == stage_at(pos, t, i as int, done as int, halfsize as int));
                        }
                    }
                    done = done + 1;
                }
            }
            proof {
                assert forall|pos: int| 0 <= pos < n implies (#[trigger] input@[pos]).value()
                    == stage_value(
                    x,
                    w,
                    bits,
                    if pos < i + size {
                        t + 1
                    } else {
                        t
                    },
                    pos,
                    modulus(),
                ) by {
                    assert(stage_at(pos, t, i as int, halfsize as int, halfsize as int) == (if pos
                        < i + size {
                        t + 1
                    } else {
                        t
                    }));
                }
                assert((b + 1) * size == b * size + size) by (nonlinear_arith);
                b = b + 1;
            }
            i = i + size;
        }
        proof {
            t = t + 1;
            lemma_pow2_unfold(t + 1);
        }
        size = size * 2;
    }
    proof {
        if t < bits {
            if t + 1 < bits {
                lemma_pow2_strictly_increases(t + 1, bits);
            }
            assert(false);
        }
    }
}

/// What `Radix2EvaluationDomain::fft_in_place` of `ark-poly` leaves in the
/// buffer, for a domain whose generator and inverse generator are set to
/// the two roots: a function of the roots and the buffer's values.
pub uninterp spec fn radix2_fft(root: int, root_inverse: int, input: Seq<int>) -> Seq<int>;

/// What `Radix2EvaluationDomain::ifft_in_place` of `ark-poly` leaves in the
/// buffer, for a domain whose generator and inverse generator are set to
/// the two roots: a function of the roots and the buffer's values.
pub uninterp spec fn radix2_ifft(root: int, root_inverse: int, input: Seq<int>) -> Seq<int>;

/// `fft_in_place` of `ark-poly` on a radix-2 domain of the buffer's size
/// with the given generator. The buffer keeps its length (it has the
/// domain's size) and holds field elements; what they are is named, not
/// stated.
#[verifier::external_body]
fn ark_fft_in_place(root: &FieldElement, root_inverse: &FieldElement, input: &mut Vec<FieldElement>)
    requires
        root.wf(),
        root_inverse.wf(),
        all_wf(old(input)@),
        exists|levels: nat| levels <= MAX_LEVELS && old(input)@.len() == #[trigger] pow2(levels),
    ensures
        final(input)@.len() == old(input)@.len(),
        all_wf(final(input)@),
        values(final(input)@) == radix2_fft(
            root.value(),
            root_inverse.value(),
            values(old(input)@),
        ),
{
    let mut domain = Radix2EvaluationDomain::<Fr>::new(input.len()).unwrap();
    domain.group_gen = Fr::from(BigInt(root.to_limbs()));
    domain.group_gen_inv = Fr::from(BigInt(root_inverse.to_limbs()));
    let mut buffer: Vec<Fr> = input.iter().map(|e| Fr::from(BigInt(e.to_limbs()))).collect();
    domain.fft_in_place(&mut buffer);
    *input = buffer.iter().map(|c| FieldElement::from_raw_limbs(c.into_bigint().0)).collect();
}

/// `ifft_in_place` of `ark-poly` on a radix-2 domain of the buffer's size
/// with the given generator. The buffer keeps its length (it has the
/// domain's size) and holds field elements; what they are is named, not
/// stated.
#[verifier::external_body]
fn ark_ifft_in_place(
    root: &FieldElement,
    root_inverse: &FieldElement,
    input: &mut Vec<FieldElement>,
)
    requires
        root.wf(),
        root_inverse.wf(),
        all_wf(old(input)@),
        exists|levels: nat| levels <= MAX_LEVELS && old(input)@.len() == #[trigger] pow2(levels),
    ensures
        final(input)@.len() == old(input)@.len(),
        all_wf(final(input)@),
        values(final(input)@) == radix2_ifft(
            root.value(),
            root_inverse.value(),
            values(old(input)@),
        ),
{
    let mut domain = Radix2EvaluationDomain::<Fr>::new(input.len()).unwrap();
    domain.group_gen = Fr::from(BigInt(root.to_limbs()));
    domain.group_gen_inv = Fr::from(BigInt(root_inverse.to_limbs()));
    let mut buffer: Vec<Fr> = input.iter().map(|e| Fr::from(BigInt(e.to_limbs()))).collect();
    domain.ifft_in_place(&mut buffer);
    *input = buffer.iter().map(|c| FieldElement::from_raw_limbs(c.into_bigint().0)).collect();
}

/// A transform of one size with one root: the size, the root and its
/// inverse, the tables of their powers, and the inverse of the size.
pub struct NTTProcessor {
    n: usize,
    levels: u32,
    n_inv: FieldElement,
    root: FieldElement,
    root_inverse: FieldElement,
    omega: FieldElement,
    omega_inverse: FieldElement,
    pow_table: Vec<FieldElement>,
    inv_pow_table: Vec<FieldElement>,
}

/// A copy of a slice of elements.
fn copy_of(input: &[FieldElement]) -> (output: Vec<FieldElement>)
    ensures
        output@ == input@,
{
    vstd::slice::slice_to_vec(input)
}

impl NTTProcessor {
    /// The length of the sequences that are transformed.
    pub closed spec fn size(&self) -> nat {
        self.n as nat
    }

    /// The root of unity of order `size` that the transform is taken with.
    pub closed spec fn transform_root(&self) -> int {
        self.omega.value()
    }

    /// The inverse of the transform's root.
    pub closed spec fn transform_root_inverse(&self) -> int {
        self.omega_inverse.value()
    }

    /// The root that the twists multiply by: the transform's root, or for
    /// a negacyclic processor the root of order `2 size` whose square the
    /// transform's root is.
    pub closed spec fn twist_root(&self) -> int {
        self.root.value()
    }

    /// The inverse of the twists' root.
    pub closed spec fn twist_root_inverse(&self) -> int {
        self.root_inverse.value()
    }

    /// The inverse of the size in the field.
    pub closed spec fn size_inverse(&self) -> int {
        self.n_inv.value()
    }

    /// The processor's invariant: the size is a power of two, the roots and
    /// the size have the stated inverses, the transform's root has order
    /// `size`, and the tables hold its powers.
    pub closed spec fn wf(&self) -> bool {
        &&& self.levels <= MAX_LEVELS
        &&& self.n == pow2(self.levels as nat)
        &&& self.n_inv.wf()
        &&& self.root.wf()
        &&& self.root_inverse.wf()
        &&& self.omega.wf()
        &&& self.omega_inverse.wf()
        &&& congruent(self.n * self.n_inv.value(), 1, modulus())
        &&& congruent(self.root.value() * self.root_inverse.value(), 1, modulus())
        &&& congruent(self.omega.value() * self.omega_inverse.value(), 1, modulus())
        &&& primitive_root(self.omega.value(), self.n as nat, modulus())
        &&& primitive_root(self.omega_inverse.value(), self.n as nat, modulus())
        &&& is_power_table(self.pow_table@, self.omega.value(), (self.n / 2) as nat)
        &&& is_power_table(self.inv_pow_table@, self.omega_inverse.value(), (self.n / 2) as nat)
    }

    /// What the invariant says of the roots and the size.
    pub proof fn lemma_wf(&self)
        requires
            self.wf(),
        ensures
            exists|levels: nat| levels <= MAX_LEVELS && self.size() == #[trigger] pow2(levels),
            0 <= self.transform_root() < modulus(),
            0 <= self.transform_root_inverse() < modulus(),
            0 <= self.twist_root() < modulus(),
            0 <= self.twist_root_inverse() < modulus(),
            0 <= self.size_inverse() < modulus(),
            primitive_root(self.transform_root(), self.size(), modulus()),
            primitive_root(self.transform_root_inverse(), self.size(), modulus()),
            congruent(self.transform_root() * self.transform_root_inverse(), 1, modulus()),
            congruent(self.twist_root() * self.twist_root_inverse(), 1, modulus()),
            congruent(self.size() * self.size_inverse(), 1, modulus()),
    {
        assert(self.size() == pow2(self.levels as nat));
    }

    /// The processor of cyclic transforms of length `n` with the root
    /// `root` of order `n`.
    pub fn new(n: usize, root: FieldElement) -> (processor: NTTProcessor)
        requires
            exists|levels: nat| levels <= MAX_LEVELS && n == #[trigger] pow2(levels),
            root.wf(),
            primitive_root(root.value(), n as nat, modulus()),
        ensures
            processor.wf(),
            processor.size() == n,
            processor.transform_root() == root.value(),
            processor.twist_root() == root.value(),
    {
        let levels: u32 = log2_exact(n).unwrap();
        proof {
            lemma_pow2_pos(levels as nat);
            lemma_root_is_not_zero(root.value(), n as nat, modulus());
        }
        let root_inverse: FieldElement = root.inverse().unwrap();
        let n_inv: FieldElement = FieldElement::from_u64(n as u64).inverse().unwrap();
        proof {
            lemma_inverse_is_primitive(root.value(), root_inverse.value(), n as nat, modulus());
        }
        NTTProcessor {
            n,
            levels,
            n_inv,
            root,
            root_inverse,
            omega: root,
            omega_inverse: root_inverse,
            pow_table: create_pow_table(n, root),
            inv_pow_table: create_pow_table(n, root_inverse),
        }
    }

    /// The processor of negacyclic transforms of length `n` with the root
    /// `root` of order `2 n`: the transform is taken with the square of
    /// the root, the twists multiply by the root itself.
    pub fn new_negacylic(n: usize, root: FieldElement) -> (processor: NTTProcessor)
        requires
            exists|levels: nat| levels <= MAX_LEVELS && n == #[trigger] pow2(levels),
            root.wf(),
            primitive_root(root.value(), 2 * n as nat, modulus()),
        ensures
            processor.wf(),
            processor.size() == n,
            processor.transform_root() == (root.value() * root.value()) % modulus(),
            processor.twist_root() == root.value(),
            processor.negacyclic(),
    {
        let levels: u32 = log2_exact(n).unwrap();
        let root_squared: FieldElement = root.square();
        proof {
            lemma_pow2_pos(levels as nat);
            lemma_root_is_not_zero(root.value(), 2 * n as nat, modulus());
            if levels > 0 {
                lemma_pow2_unfold(levels as nat);
            } else {
                lemma2_to64();
            }
            lemma_square_is_primitive(root.value(), root_squared.value(), n as nat, modulus());
            lemma_root_is_not_zero(root_squared.value(), n as nat, modulus());
        }
        let root_inverse: FieldElement = root.inverse().unwrap();
        let n_inv: FieldElement = FieldElement::from_u64(n as u64).inverse().unwrap();
        let root_squared_inverse: FieldElement = root_squared.inverse().unwrap();
        proof {
            lemma_inverse_is_primitive(
                root_squared.value(),
                root_squared_inverse.value(),
                n as nat,
                modulus(),
            );
        }
        NTTProcessor {
            n,
            levels,
            n_inv,
            root,
            root_inverse,
            omega: root_squared,
            omega_inverse: root_squared_inverse,
            pow_table: create_pow_table(n, root_squared),
            inv_pow_table: create_pow_table(n, root_squared_inverse),
        }
    }

    /// Twists two sequences before a forward transform: entry `i` of each
    /// is multiplied by the `i`-th power of the twists' root.
    pub fn negacylcic_preprocess_two(&self, a: &mut Vec<FieldElement>, b: &mut Vec<FieldElement>)
        requires
            self.wf(),
            old(a)@.len() == self.size(),
            old(b)@.len() == self.size(),
            all_wf(old(a)@),
            all_wf(old(b)@),
        ensures
            final(a)@.len() == self.size(),
            final(b)@.len() == self.size(),
            all_wf(final(a)@),
            all_wf(final(b)@),
            values(final(a)@) == twisted(values(old(a)@), self.twist_root(), modulus()),
            values(final(b)@) == twisted(values(old(b)@), self.twist_root(), modulus()),
    {
        twist(a, self.root);
        twist(b, self.root);
    }

    /// Twists a sequence before a forward transform: entry `i` is
    /// multiplied by the `i`-th power of the twists' root.
    pub fn negacylcic_preprocess(&self, a: &mut Vec<FieldElement>)
        requires
            self.wf(),
            old(a)@.len() == self.size(),
            all_wf(old(a)@),
        ensures
            final(a)@.len() == self.size(),
            all_wf(final(a)@),
            values(final(a)@) == twisted(values(old(a)@), self.twist_root(), modulus()),
    {
        twist(a, self.root);
    }

    /// Untwists a sequence after an inverse transform: entry `i` is
    /// multiplied by the `i`-th power of the inverse of the twists' root.
    pub fn negacylcic_postprocess(&self, a: &mut Vec<FieldElement>)
        requires
            self.wf(),
            old(a)@.len() == self.size(),
            all_wf(old(a)@),
        ensures
            final(a)@.len() == self.size(),
            all_wf(final(a)@),
            values(final(a)@) == twisted(values(old(a)@), self.twist_root_inverse(), modulus()),
    {
        twist(a, self.root_inverse);
    }

    /// The transform of `input`.
    pub fn ntt(&self, input: &[FieldElement]) -> (output: Vec<FieldElement>)
        requires
            self.wf(),
            input@.len() == self.size(),
            all_wf(input@),
        ensures
            output@.len() == self.size(),
            all_wf(output@),
            values(output@) == dft(values(input@), self.transform_root(), modulus()),
    {
        let mut output: Vec<FieldElement> = copy_of(input);
        self.ntt_inplace(&mut output);
        output
    }

    /// Replaces the buffer by its transform: entry `k` becomes the sum of
    /// the entries `x[j]` times the power `j k` of the transform's root.
    pub fn ntt_inplace(&self, input: &mut Vec<FieldElement>)
        requires
            self.wf(),
            old(input)@.len() == self.size(),
            all_wf(old(input)@),
        ensures
            final(input)@.len() == self.size(),
            all_wf(final(input)@),
            values(final(input)@) == dft(values(old(input)@), self.transform_root(), modulus()),
    {
        let ghost x: Seq<int> = values(input@);
        let ghost w: int = self.omega.value();
        bit_reverse_permute(input, self.levels);
        proof {
            assert forall|pos: int| 0 <= pos < self.n implies (#[trigger] input@[pos]).value()
                == stage_value(x, w, self.levels as nat, 0, pos, modulus()) by {
                let source: int = bit_reverse(pos as nat, self.levels as nat) as int;
                assert(input@[pos] == old(input)@[source]);
                assert(old(input)@[source].wf());
                lemma_stage_first(x, w, self.levels as nat, pos, modulus());
                lemma_small_mod(x[source] as nat, modulus() as nat);
            }
            assert forall|pos: int| 0 <= pos < self.n implies (#[trigger] input@[pos]).wf() by {
                let source: int = bit_reverse(pos as nat, self.levels as nat) as int;
                assert(input@[pos] == old(input)@[source]);
                assert(old(input)@[source].wf());
            }
        }
        butterflies(input, &self.pow_table, self.n, self.levels, Ghost(w), Ghost(x));
        proof {
            assert forall|pos: int| 0 <= pos < self.n implies #[trigger] values(input@)[pos] == dft(
                x,
                w,
                modulus(),
            )[pos] by {
                lemma_stage_last(x, w, self.levels as nat, pos, modulus());
            }
            assert(values(input@) =~= dft(x, w, modulus()));
        }
    }

    /// The inverse transform of `input`.
    pub fn intt(&self, input: &[FieldElement]) -> (output: Vec<FieldElement>)
        requires
            self.wf(),
            input@.len() == self.size(),
            all_wf(input@),
        ensures
            output@.len() == self.size(),
            all_wf(output@),
            values(output@) == inverse_dft(
                values(input@),
                self.transform_root_inverse(),
                self.size_inverse(),
                modulus(),
            ),
    {
        let mut output: Vec<FieldElement> = copy_of(input);
        self.intt_inplace(&mut output);
        output
    }

    /// Replaces the buffer by its inverse transform: the transform with
    /// the inverse root, every entry then multiplied by the inverse of the
    /// size.
    pub fn intt_inplace(&self, input: &mut Vec<FieldElement>)
        requires
            self.wf(),
            old(input)@.len() == self.size(),
            all_wf(old(input)@),
        ensures
            final(input)@.len() == self.size(),
            all_wf(final(input)@),
            values(final(input)@) == inverse_dft(
                values(old(input)@),
                self.transform_root_inverse(),
                self.size_inverse(),
                modulus(),
            ),
    {
        let ghost x: Seq<int> = values(input@);
        let ghost w: int = self.omega_inverse.value();
        bit_reverse_permute(input, self.levels);
        proof {
            assert forall|pos: int| 0 <= pos < self.n implies (#[trigger] input@[pos]).value()
                == stage_value(x, w, self.levels as nat, 0, pos, modulus()) by {
                let source: int = bit_reverse(pos as nat, self.levels as nat) as int;
                assert(input@[pos] == old(input)@[source]);
                assert(old(input)@[source].wf());
                lemma_stage_first(x, w, self.levels as nat, pos, modulus());
                lemma_small_mod(x[source] as nat, modulus() as nat);
            }
            assert forall|pos: int| 0 <= pos < self.n implies (#[trigger] input@[pos]).wf() by {
                let source: int = bit_reverse(pos as nat, self.levels as nat) as int;
                assert(input@[pos] == old(input)@[source]);
                assert(old(input)@[source].wf());
            }
        }
        butterflies(input, &self.inv_pow_table, self.n, self.levels, Ghost(w), Ghost(x));
        let ghost unscaled: Seq<FieldElement> = input@;
        let n: usize = self.n;
        for i in 0..n
            invariant
                n == self.n,
                self.wf(),
                input@.len() == n,
                unscaled.len() == n,
                all_wf(unscaled),
                forall|j: int|
                    0 <= j < i ==> (#[trigger] input@[j]).wf() && input@[j].value() == (
                    unscaled[j].value() * self.n_inv.value()) % modulus(),
                forall|j: int| i <= j < n ==> #[trigger] input@[j] == unscaled[j],
        {
            let entry: FieldElement = input[i];
            input[i] = entry.mul(&self.n_inv);
        }
        proof {
            let target = inverse_dft(x, w, self.n_inv.value(), modulus());
            assert forall|pos: int| 0 <= pos < self.n implies #[trigger] values(input@)[pos]
                == target[pos] by {
                lemma_stage_last(x, w, self.levels as nat, pos, modulus());
                let s: int = dft_sum(x, w, pos);
                assert(unscaled[pos].value() == s % modulus());
                lemma_mul_mod_noop_left(s, self.n_inv.value(), modulus());
                vstd::arithmetic::mul::lemma_mul_is_commutative(s, self.n_inv.value());
            }
            assert(values(input@) =~= target);
        }
    }

    /// The transform of `input` as `ark-poly` computes it, for checking
    /// this library's own against it.
    pub fn fft(&self, input: &[FieldElement]) -> (output: Vec<FieldElement>)
        requires
            self.wf(),
            input@.len() == self.size(),
            all_wf(input@),
        ensures
            output@.len() == self.size(),
            all_wf(output@),
            values(output@) == radix2_fft(
                self.transform_root(),
                self.transform_root_inverse(),
                values(input@),
            ),
    {
        let mut output: Vec<FieldElement> = copy_of(input);
        self.fft_inplace(&mut output);
        output
    }

    /// Replaces the buffer by its transform as `ark-poly` computes it.
    pub fn fft_inplace(&self, input: &mut Vec<FieldElement>)
        requires
            self.wf(),
            old(input)@.len() == self.size(),
            all_wf(old(input)@),
        ensures
            final(input)@.len() == self.size(),
            all_wf(final(input)@),
            values(final(input)@) == radix2_fft(
                self.transform_root(),
                self.transform_root_inverse(),
                values(old(input)@),
            ),
    {
        assert(self.n == pow2(self.levels as nat));
        ark_fft_in_place(&self.omega, &self.omega_inverse, input);
    }

    /// The inverse transform of `input` as `ark-poly` computes it.
    pub fn ifft(&self, input: &[FieldElement]) -> (output: Vec<FieldElement>)
        requires
            self.wf(),
            input@.len() == self.size(),
            all_wf(input@),
        ensures
            output@.len() == self.size(),
            all_wf(output@),
            values(output@) == radix2_ifft(
                self.transform_root(),
                self.transform_root_inverse(),
                values(input@),
            ),
    {
        let mut output: Vec<FieldElement> = copy_of(input);
        self.ifft_inplace(&mut output);
        output
    }

    /// Replaces the buffer by its inverse transform as `ark-poly` computes
    /// it.
    pub fn ifft_inplace(&self, input: &mut Vec<FieldElement>)
        requires
            self.wf(),
            old(input)@.len() == self.size(),
            all_wf(old(input)@),
        ensures
            final(input)@.len() == self.size(),
            all_wf(final(input)@),
            values(final(input)@) == radix2_ifft(
                self.transform_root(),
                self.transform_root_inverse(),
                values(old(input)@),
            ),
    {
        assert(self.n == pow2(self.levels as nat));
        ark_ifft_in_place(&self.omega, &self.omega_inverse, input);
    }
}

impl NTTProcessor {
    /// The twists' root has order twice the size and the transform's root
    /// is its square: the processor is one for negacyclic convolutions.
    pub closed spec fn negacyclic(&self) -> bool {
        &&& primitive_root(self.root.value(), 2 * (self.n as nat), modulus())
        &&& self.omega.value() == (self.root.value() * self.root.value()) % modulus()
    }

    /// The inverse transform undoes the transform: what `intt` gives for
    /// what `ntt` gives for `x` is `x`.
    pub proof fn lemma_round_trip(&self, x: Seq<FieldElement>)
        requires
            self.wf(),
            x.len() == self.size(),
            all_wf(x),
        ensures
            inverse_dft(
                dft(values(x), self.transform_root(), modulus()),
                self.transform_root_inverse(),
                self.size_inverse(),
                modulus(),
            ) == values(x),
    {
        crate::transform_laws::lemma_round_trip(
            values(x),
            self.omega.value(),
            self.omega_inverse.value(),
            self.n_inv.value(),
            self.levels as nat,
            modulus(),
        );
    }

    /// The transform undoes the inverse transform: what `ntt` gives for
    /// what `intt` gives for `x` is `x`.
    pub proof fn lemma_round_trip_back(&self, x: Seq<FieldElement>)
        requires
            self.wf(),
            x.len() == self.size(),
            all_wf(x),
        ensures
            dft(
                inverse_dft(
                    values(x),
                    self.transform_root_inverse(),
                    self.size_inverse(),
                    modulus(),
                ),
                self.transform_root(),
                modulus(),
            ) == values(x),
    {
        crate::transform_laws::lemma_round_trip_back(
            values(x),
            self.omega.value(),
            self.omega_inverse.value(),
            self.n_inv.value(),
            self.levels as nat,
            modulus(),
        );
    }

    /// The transform of the sequence whose entries are all `mu` is `mu`
    /// times the size at the first place and zero at the others.
    pub proof fn lemma_constant(&self, mu: int)
        requires
            self.wf(),
        ensures
            dft(
                crate::transform_laws::constant(mu, self.size()),
                self.transform_root(),
                modulus(),
            ) == crate::transform_laws::spike(mu, self.size(), modulus()),
    {
        crate::transform_laws::lemma_transform_of_constant(
            mu,
            self.omega.value(),
            self.levels as nat,
            modulus(),
        );
    }

    /// Transforming two sequences, multiplying place by place and
    /// transforming back gives their cyclic convolution.
    pub proof fn lemma_cyclic_convolution(&self, a: Seq<int>, b: Seq<int>)
        requires
            self.wf(),
            a.len() == self.size(),
            b.len() == self.size(),
        ensures
            inverse_dft(
                crate::transform_laws::pointwise(
                    dft(a, self.transform_root(), modulus()),
                    dft(b, self.transform_root(), modulus()),
                    modulus(),
                ),
                self.transform_root_inverse(),
                self.size_inverse(),
                modulus(),
            ) == crate::transform_laws::cyclic_convolution(a, b, modulus()),
    {
        crate::transform_laws::lemma_cyclic_convolution(
            a,
            b,
            self.omega.value(),
            self.omega_inverse.value(),
            self.n_inv.value(),
            self.levels as nat,
            modulus(),
        );
    }

    /// With a negacyclic processor, twisting two sequences, transforming
    /// them, multiplying place by place, transforming back and untwisting
    /// gives their negacyclic convolution.
    pub proof fn lemma_negacyclic_convolution(&self, a: Seq<int>, b: Seq<int>)
        requires
            self.wf(),
            self.negacyclic(),
            a.len() == self.size(),
            b.len() == self.size(),
        ensures
            twisted(
                inverse_dft(
                    crate::transform_laws::pointwise(
                        dft(
                            twisted(a, self.twist_root(), modulus()),
                            self.transform_root(),
                            modulus(),
                        ),
                        dft(
                            twisted(b, self.twist_root(), modulus()),
                            self.transform_root(),
                            modulus(),
                        ),
                        modulus(),
                    ),
                    self.transform_root_inverse(),
                    self.size_inverse(),
                    modulus(),
                ),
                self.twist_root_inverse(),
                modulus(),
            ) == crate::transform_laws::negacyclic_convolution(a, b, modulus()),
    {
        crate::transform_laws::lemma_negacyclic_convolution(
            a,
            b,
            self.root.value(),
            self.root_inverse.value(),
            self.omega.value(),
            self.omega_inverse.value(),
            self.n_inv.value(),
            self.levels as nat,
            modulus(),
        );
    }
}

/// A power of two above one is even.
proof fn lemma_power_of_two_is_even(n: nat)
    requires
        exists|level: nat| n == #[trigger] pow2(level),
        n >= 2,
    ensures
        n % 2 == 0,
{
    let level: nat = choose|level: nat| n == #[trigger] pow2(level);
    if level == 0 {
        lemma2_to64();
    } else {
        lemma_pow2_unfold(level);
    }
}

/// A remainder whose power is the given one has the order if and only if
/// the power is minus one.
proof fn lemma_order_by_half_power(w: int, n: nat, power: int)
    requires
        n >= 2,
        n % 2 == 0,
        power == pow(w, n / 2) % modulus(),
    ensures
        primitive_root(w, n, modulus()) <==> power == modulus() - 1,
{
    crate::dft::lemma_minus_one(modulus());
}

/// Whether `root` is a root of unity of order exactly `n`, for `n` a
/// power of two.
pub fn has_order(root: &FieldElement, n: usize) -> (b: bool)
    requires
        root.wf(),
        exists|level: nat| n == #[trigger] pow2(level),
    ensures
        b == primitive_root(root.value(), n as nat, modulus()),
{
    let one: FieldElement = FieldElement::one();
    if n <= 1 {
        proof {
            lemma_small_mod(1, modulus() as nat);
            lemma_small_mod(root.value() as nat, modulus() as nat);
            if root.value() == 1 {
                crate::field::lemma_value_injective(*root, one);
            }
        }
        *root == one
    } else {
        let minus_one: FieldElement = FieldElement::zero().sub(&one);
        let half: u64 = (n / 2) as u64;
        let exponent: [u64; 4] = [half, 0, 0, 0];
        assert(crate::field::array_value(exponent) == half as int);
        let power: FieldElement = root.pow(exponent);
        proof {
            lemma_power_of_two_is_even(n as nat);
            crate::dft::lemma_minus_one(modulus());
            assert(minus_one.value() == modulus() - 1);
            lemma_order_by_half_power(root.value(), n as nat, power.value());
            if power.value() == minus_one.value() {
                crate::field::lemma_value_injective(power, minus_one);
            }
        }
        power == minus_one
    }
}

impl NTTProcessor {
    /// The processor of cyclic transforms of length `n` with the root
    /// `root`, if `n` is a power of two up to `2^28` and `root` is a root
    /// of unity of order `n`.
    pub fn try_new(n: usize, root: FieldElement) -> (result: Option<NTTProcessor>)
        ensures
            result is Some <==> (exists|levels: nat|
                levels <= MAX_LEVELS && n == #[trigger] pow2(levels)) && root.wf()
                && primitive_root(root.value(), n as nat, modulus()),
            result matches Some(processor) ==> processor.wf() && processor.size() == n
                && processor.transform_root() == root.value() && processor.twist_root()
                == root.value(),
    {
        match log2_exact(n) {
            None => None,
            Some(levels) => {
                proof {
                    lemma_pow2_pos(levels as nat);
                }
                if root.is_wf() && has_order(&root, n) {
                    Some(NTTProcessor::new(n, root))
                } else {
                    None
                }
            },
        }
    }

    /// The processor of negacyclic transforms of length `n` with the root
    /// `root`, if `n` is a power of two up to `2^28` and `root` is a root
    /// of unity of order `2 n`.
    pub fn try_new_negacylic(n: usize, root: FieldElement) -> (result: Option<NTTProcessor>)
        ensures
            result is Some <==> (exists|levels: nat|
                levels <= MAX_LEVELS && n == #[trigger] pow2(levels)) && root.wf()
                && primitive_root(root.value(), 2 * n as nat, modulus()),
            result matches Some(processor) ==> processor.wf() && processor.negacyclic()
                && processor.size() == n && processor.twist_root() == root.value(),
    {
        match log2_exact(n) {
            None => None,
            Some(levels) => {
                proof {
                    lemma_pow2_pos(levels as nat);
                    lemma_pow2_strictly_increases(levels as nat, 29);
                    lemma2_to64();
                    lemma_pow2_unfold((levels + 1) as nat);
                    assert(2 * n == pow2((levels + 1) as nat));
                }
                if root.is_wf() && has_order(&root, 2 * n) {
                    Some(NTTProcessor::new_negacylic(n, root))
                } else {
                    None
                }
            },
        }
    }
}

} // verus!
