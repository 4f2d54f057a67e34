//! Elements of the scalar field of the BN254 curve.
//!
//! An element is held as the four 64-bit limbs of its least non-negative
//! representative, lowest limb first. The arithmetic itself is done by
//! `ark-ff` on `ark_bn254::Fr`; the functions that hand a value over and take
//! the result back are the private `ark_*` functions of this file, and their
//! contracts are taken on trust. The Legendre symbol is taken by the power
//! that defines it.

use ark_bn254::Fr;
use ark_ff::{BigInt, Field, PrimeField};
use vstd::arithmetic::power::pow;
use vstd::prelude::*;

verus! {

/// The order of the field, a prime of 254 bits.
pub open spec fn modulus() -> int {
    21888242871839275222246405745257275088548364400416034343698204186575808495617int
}

/// The number written by four limbs in base `2^64`, lowest limb first.
pub open spec fn limbs_value(l0: u64, l1: u64, l2: u64, l3: u64) -> int {
    l0 as int + l1 as int * 0x1_0000_0000_0000_0000int + l2 as int
        * 0x1_0000_0000_0000_0000_0000_0000_0000_0000int + l3 as int
        * 0x1_0000_0000_0000_0000_0000_0000_0000_0000_0000_0000_0000_0000int
}

/// The number written by an array of four limbs, lowest limb first.
pub open spec fn array_value(limbs: [u64; 4]) -> int {
    limbs_value(limbs[0], limbs[1], limbs[2], limbs[3])
}

/// Lowest limb of the modulus.
pub const MODULUS_0: u64 = 0x43e1f593f0000001;

/// Second limb of the modulus.
pub const MODULUS_1: u64 = 0x2833e84879b97091;

/// Third limb of the modulus.
pub const MODULUS_2: u64 = 0xb85045b68181585d;

/// Highest limb of the modulus.
pub const MODULUS_3: u64 = 0x30644e72e131a029;

/// The modulus is the number that its four limb constants write.
pub proof fn lemma_modulus_limbs()
    ensures
        limbs_value(MODULUS_0, MODULUS_1, MODULUS_2, MODULUS_3) == modulus(),
{
}

/// An element of the field.
#[derive(Clone, Copy, Debug, PartialEq, Eq, Hash, Structural)]
pub struct FieldElement {
    pub l0: u64,
    pub l1: u64,
    pub l2: u64,
    pub l3: u64,
}

/// The quadratic character of an element.
#[derive(Clone, Copy, Debug, PartialEq, Eq, Structural)]
pub enum LegendreSymbol {
    Zero,
    QuadraticResidue,
    QuadraticNonResidue,
}

/// The values of a sequence of elements.
pub open spec fn values(s: Seq<FieldElement>) -> Seq<int> {
    Seq::new(s.len(), |i: int| s[i].value())
}

/// Every element of the sequence is well formed.
pub open spec fn all_wf(s: Seq<FieldElement>) -> bool {
    forall|i: int| 0 <= i < s.len() ==> (#[trigger] s[i]).wf()
}

/// A digit and the digits above it, in base `2^64`.
proof fn lemma_digit(low: u64, high: int)
    ensures
        (low as int + high * 0x1_0000_0000_0000_0000int) % 0x1_0000_0000_0000_0000int == low,
        (low as int + high * 0x1_0000_0000_0000_0000int) / 0x1_0000_0000_0000_0000int == high,
{
    vstd::arithmetic::div_mod::lemma_fundamental_div_mod_converse(
        low as int + high * 0x1_0000_0000_0000_0000int,
        0x1_0000_0000_0000_0000int,
        high,
        low as int,
    );
}

/// Limbs are digits: two elements with one value are one element.
pub proof fn lemma_value_injective(a: FieldElement, b: FieldElement)
    requires
        a.value() == b.value(),
    ensures
        a == b,
{
    let base: int = 0x1_0000_0000_0000_0000int;
    let a2: int = a.l2 as int + (a.l3 as int) * base;
    let b2: int = b.l2 as int + (b.l3 as int) * base;
    let a1: int = a.l1 as int + a2 * base;
    let b1: int = b.l1 as int + b2 * base;
    assert(a.value() == a.l0 as int + a1 * base);
    assert(b.value() == b.l0 as int + b1 * base);
    lemma_digit(a.l0, a1);
    lemma_digit(b.l0, b1);
    assert(a.l0 == b.l0 && a1 == b1);
    lemma_digit(a.l1, a2);
    lemma_digit(b.l1, b2);
    assert(a.l1 == b.l1 && a2 == b2);
    lemma_digit(a.l2, a.l3 as int);
    lemma_digit(b.l2, b.l3 as int);
}

/// Sequences with the same values are the same sequence.
pub proof fn lemma_values_injective(a: Seq<FieldElement>, b: Seq<FieldElement>)
    requires
        values(a) == values(b),
    ensures
        a == b,
{
    assert(a.len() == values(a).len());
    assert(b.len() == values(b).len());
    assert forall|i: int| 0 <= i < a.len() implies a[i] == b[i] by {
        assert(values(a)[i] == a[i].value());
        assert(values(b)[i] == b[i].value());
        lemma_value_injective(a[i], b[i]);
    }
    assert(a =~= b);
}

/// Numbers are compared by their highest limbs that differ.
pub proof fn lemma_limbs_order(
    a0: u64,
    a1: u64,
    a2: u64,
    a3: u64,
    b0: u64,
    b1: u64,
    b2: u64,
    b3: u64,
)
    ensures
        limbs_value(a0, a1, a2, a3) < limbs_value(b0, b1, b2, b3) <==> (a3 < b3 || (a3 == b3 && (a2
            < b2 || (a2 == b2 && (a1 < b1 || (a1 == b1 && a0 < b0)))))),
{
    let base: int = 0x1_0000_0000_0000_0000int;
    let low_a: int = a0 as int + (a1 as int) * base;
    let low_b: int = b0 as int + (b1 as int) * base;
    let mid_a: int = low_a + (a2 as int) * (base * base);
    let mid_b: int = low_b + (b2 as int) * (base * base);
    assert(base * base == 0x1_0000_0000_0000_0000_0000_0000_0000_0000int);
    assert(base * base * base
        == 0x1_0000_0000_0000_0000_0000_0000_0000_0000_0000_0000_0000_0000int);
    assert(0 <= low_a < base * base && 0 <= low_b < base * base);
    assert(0 <= mid_a < base * base * base && 0 <= mid_b < base * base * base);
    assert(limbs_value(a0, a1, a2, a3) == mid_a + (a3 as int) * (base * base * base));
    assert(limbs_value(b0, b1, b2, b3) == mid_b + (b3 as int) * (base * base * base));
    assert(low_a < low_b <==> (a1 < b1 || (a1 == b1 && a0 < b0)));
    assert(mid_a < mid_b <==> (a2 < b2 || (a2 == b2 && low_a < low_b)));
}

/// Whether four limbs write a number below the modulus.
fn is_canonical(l0: u64, l1: u64, l2: u64, l3: u64) -> (b: bool)
    ensures
        b == (limbs_value(l0, l1, l2, l3) < modulus()),
{
    proof {
        lemma_limbs_order(l0, l1, l2, l3, MODULUS_0, MODULUS_1, MODULUS_2, MODULUS_3);
        lemma_modulus_limbs();
    }
    if l3 != MODULUS_3 {
        l3 < MODULUS_3
    } else if l2 != MODULUS_2 {
        l2 < MODULUS_2
    } else if l1 != MODULUS_1 {
        l1 < MODULUS_1
    } else {
        l0 < MODULUS_0
    }
}

/// Field addition by `ark-ff` (`Add` on `ark_bn254::Fr`): the sum of the two
/// values, reduced.
#[verifier::external_body]
fn ark_add(a: &FieldElement, b: &FieldElement) -> (r: FieldElement)
    requires
        a.wf(),
        b.wf(),
    ensures
        r.wf(),
        r.value() == (a.value() + b.value()) % modulus(),
{
    let x = Fr::from(BigInt(a.to_limbs()));
    let y = Fr::from(BigInt(b.to_limbs()));
    FieldElement::from_raw_limbs((x + y).into_bigint().0)
}

/// Field subtraction by `ark-ff` (`Sub` on `ark_bn254::Fr`): the difference
/// of the two values, reduced to the least non-negative representative.
#[verifier::external_body]
fn ark_sub(a: &FieldElement, b: &FieldElement) -> (r: FieldElement)
    requires
        a.wf(),
        b.wf(),
    ensures
        r.wf(),
        r.value() == (a.value() - b.value()) % modulus(),
{
    let x = Fr::from(BigInt(a.to_limbs()));
    let y = Fr::from(BigInt(b.to_limbs()));
    FieldElement::from_raw_limbs((x - y).into_bigint().0)
}

/// Field multiplication by `ark-ff` (`Mul` on `ark_bn254::Fr`): the product
/// of the two values, reduced.
#[verifier::external_body]
fn ark_mul(a: &FieldElement, b: &FieldElement) -> (r: FieldElement)
    requires
        a.wf(),
        b.wf(),
    ensures
        r.wf(),
        r.value() == (a.value() * b.value()) % modulus(),
{
    let x = Fr::from(BigInt(a.to_limbs()));
    let y = Fr::from(BigInt(b.to_limbs()));
    FieldElement::from_raw_limbs((x * y).into_bigint().0)
}

/// `Field::inverse` of `ark-ff`: nothing for zero, and for any other element
/// the element whose product with it is one.
#[verifier::external_body]
fn ark_inverse(a: &FieldElement) -> (r: Option<FieldElement>)
    requires
        a.wf(),
    ensures
        r.is_some() <==> a.value() != 0,
        r matches Some(i) ==> i.wf() && (a.value() * i.value()) % modulus() == 1,
{
    let x = Fr::from(BigInt(a.to_limbs()));
    x.inverse().map(|y| FieldElement::from_raw_limbs(y.into_bigint().0))
}

/// `Field::pow` of `ark-ff`: the element raised to the exponent that the
/// limbs write, lowest limb first.
#[verifier::external_body]
fn ark_pow(a: &FieldElement, exponent: [u64; 4]) -> (r: FieldElement)
    requires
        a.wf(),
    ensures
        r.wf(),
        r.value() == pow(a.value(), array_value(exponent) as nat) % modulus(),
{
    let x = Fr::from(BigInt(a.to_limbs()));
    FieldElement::from_raw_limbs(x.pow(exponent).into_bigint().0)
}

/// The limbs of half the order of the multiplicative group, lowest first.
pub fn half_order_limbs() -> (limbs: [u64; 4])
    ensures
        array_value(limbs) == (modulus() - 1) / 2,
{
    [0xa1f0fac9f8000000, 0x9419f4243cdcb848, 0xdc2822db40c0ac2e, 0x183227397098d014]
}

/// The symbol of a value: zero where the value raised to half the order
/// of the multiplicative group is zero, a residue where that power is
/// one, and a non-residue elsewhere.
pub open spec fn legendre_spec(x: int) -> LegendreSymbol {
    if euler_power(x) == 0 {
        LegendreSymbol::Zero
    } else if euler_power(x) == 1 {
        LegendreSymbol::QuadraticResidue
    } else {
        LegendreSymbol::QuadraticNonResidue
    }
}

/// The value raised to half the order of the multiplicative group, reduced.
pub open spec fn euler_power(x: int) -> int {
    pow(x, ((modulus() - 1) / 2) as nat) % modulus()
}

impl FieldElement {
    /// The least non-negative representative.
    pub open spec fn value(&self) -> int {
        limbs_value(self.l0, self.l1, self.l2, self.l3)
    }

    /// The limbs write a number below the modulus.
    pub open spec fn wf(&self) -> bool {
        self.value() < modulus()
    }

    /// The additive identity, as a value of specifications.
    pub open spec fn zero_spec() -> FieldElement {
        FieldElement { l0: 0, l1: 0, l2: 0, l3: 0 }
    }

    /// The additive identity.
    pub fn zero() -> (r: FieldElement)
        ensures
            r == Self::zero_spec(),
            r.wf(),
            r.value() == 0,
    {
        FieldElement { l0: 0, l1: 0, l2: 0, l3: 0 }
    }

    /// The multiplicative identity.
    pub fn one() -> (r: FieldElement)
        ensures
            r.wf(),
            r.value() == 1,
    {
        FieldElement { l0: 1, l1: 0, l2: 0, l3: 0 }
    }

    /// The element of a machine integer.
    pub fn from_u64(x: u64) -> (r: FieldElement)
        ensures
            r.wf(),
            r.value() == x,
    {
        FieldElement { l0: x, l1: 0, l2: 0, l3: 0 }
    }

    /// The element that four limbs write, lowest first, if they write a
    /// number below the modulus.
    pub fn from_limbs(limbs: [u64; 4]) -> (r: Option<FieldElement>)
        ensures
            r.is_some() <==> array_value(limbs) < modulus(),
            r matches Some(e) ==> e.wf() && e.value() == array_value(limbs),
    {
        if is_canonical(limbs[0], limbs[1], limbs[2], limbs[3]) {
            Some(FieldElement { l0: limbs[0], l1: limbs[1], l2: limbs[2], l3: limbs[3] })
        } else {
            None
        }
    }

    /// The value with the given limbs, lowest first, whatever number they
    /// write; it is an element where that number is below the modulus.
    pub fn from_raw_limbs(limbs: [u64; 4]) -> (r: FieldElement)
        ensures
            r.value() == array_value(limbs),
    {
        FieldElement { l0: limbs[0], l1: limbs[1], l2: limbs[2], l3: limbs[3] }
    }

    /// The four limbs of the element, lowest first.
    pub fn to_limbs(&self) -> (limbs: [u64; 4])
        ensures
            array_value(limbs) == self.value(),
    {
        [self.l0, self.l1, self.l2, self.l3]
    }

    /// Whether the limbs are those of an element.
    pub fn is_wf(&self) -> (b: bool)
        ensures
            b == self.wf(),
    {
        is_canonical(self.l0, self.l1, self.l2, self.l3)
    }

    /// Whether this is the additive identity.
    pub fn is_zero(&self) -> (b: bool)
        ensures
            b == (self.value() == 0),
    {
        self.l0 == 0 && self.l1 == 0 && self.l2 == 0 && self.l3 == 0
    }

    /// Whether this element's value is below the other's.
    pub fn lt(&self, rhs: &FieldElement) -> (b: bool)
        ensures
            b == (self.value() < rhs.value()),
    {
        proof {
            lemma_limbs_order(
                self.l0,
                self.l1,
                self.l2,
                self.l3,
                rhs.l0,
                rhs.l1,
                rhs.l2,
                rhs.l3,
            );
        }
        if self.l3 != rhs.l3 {
            self.l3 < rhs.l3
        } else if self.l2 != rhs.l2 {
            self.l2 < rhs.l2
        } else if self.l1 != rhs.l1 {
            self.l1 < rhs.l1
        } else {
            self.l0 < rhs.l0
        }
    }

    /// The sum.
    pub fn add(&self, rhs: &FieldElement) -> (r: FieldElement)
        requires
            self.wf(),
            rhs.wf(),
        ensures
            r.wf(),
            r.value() == (self.value() + rhs.value()) % modulus(),
    {
        ark_add(self, rhs)
    }

    /// The difference.
    pub fn sub(&self, rhs: &FieldElement) -> (r: FieldElement)
        requires
            self.wf(),
            rhs.wf(),
        ensures
            r.wf(),
            r.value() == (self.value() - rhs.value()) % modulus(),
    {
        ark_sub(self, rhs)
    }

    /// The product.
    pub fn mul(&self, rhs: &FieldElement) -> (r: FieldElement)
        requires
            self.wf(),
            rhs.wf(),
        ensures
            r.wf(),
            r.value() == (self.value() * rhs.value()) % modulus(),
    {
        ark_mul(self, rhs)
    }

    /// The square.
    pub fn square(&self) -> (r: FieldElement)
        requires
            self.wf(),
        ensures
            r.wf(),
            r.value() == (self.value() * self.value()) % modulus(),
    {
        ark_mul(self, self)
    }

    /// The multiplicative inverse, which every element but zero has.
    pub fn inverse(&self) -> (r: Option<FieldElement>)
        requires
            self.wf(),
        ensures
            r.is_some() <==> self.value() != 0,
            r matches Some(i) ==> i.wf() && (self.value() * i.value()) % modulus() == 1,
    {
        ark_inverse(self)
    }

    /// The power with the exponent that four limbs write, lowest first.
    pub fn pow(&self, exponent: [u64; 4]) -> (r: FieldElement)
        requires
            self.wf(),
        ensures
            r.wf(),
            r.value() == pow(self.value(), array_value(exponent) as nat) % modulus(),
    {
        ark_pow(self, exponent)
    }

    /// The Legendre symbol.
    pub fn legendre(&self) -> (r: LegendreSymbol)
        requires
            self.wf(),
        ensures
            r == legendre_spec(self.value()),
    {
        let power: FieldElement = self.pow(half_order_limbs());
        let one: FieldElement = FieldElement::one();
        proof {
            if power.value() == one.value() {
                lemma_value_injective(power, one);
            }
        }
        if power.is_zero() {
            LegendreSymbol::Zero
        } else if power == one {
            LegendreSymbol::QuadraticResidue
        } else {
            LegendreSymbol::QuadraticNonResidue
        }
    }
}

} // verus!
