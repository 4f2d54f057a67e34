//! A plain model of a packed ciphertext: the values in its slots, and what
//! rotation, addition and packed multiplication do to them. The slots
//! form two rows; a rotation by `step` moves every row to the left by
//! `step` places, cyclically.

use crate::error::Error;
use crate::field::{all_wf, modulus, values, FieldElement};
use vstd::arithmetic::div_mod::{
    lemma_fundamental_div_mod, lemma_mod_bound, lemma_mod_multiples_vanish,
};
use vstd::prelude::*;

verus! {

/// The column from which a rotation by `step` brings the value to
/// column `col` of a row of `half` slots.
pub open spec fn source_column(col: int, step: int, half: int) -> int {
    (col + step) % half
}

/// The slot from which a rotation by `step` brings the value to slot `i`.
/// Where the number of slots is odd, the last slot is in no row and stays.
pub open spec fn rotate_source(i: int, step: int, slots: int) -> int {
    let half: int = slots / 2;
    if i < half {
        source_column(i, step, half)
    } else if i < 2 * half {
        half + source_column(i - half, step, half)
    } else {
        i
    }
}

/// The slots after a rotation by `step`.
pub open spec fn rotated(c: Seq<int>, step: int) -> Seq<int> {
    Seq::new(c.len(), |i: int| c[rotate_source(i, step, c.len() as int)])
}

/// The slots of a sum.
pub open spec fn added(a: Seq<int>, b: Seq<int>, m: int) -> Seq<int> {
    Seq::new(a.len(), |i: int| (a[i] + b[i]) % m)
}

/// The slots of a product.
pub open spec fn multiplied(a: Seq<int>, b: Seq<int>, m: int) -> Seq<int> {
    Seq::new(a.len(), |i: int| (a[i] * b[i]) % m)
}

/// The slots of a product with one field element.
pub open spec fn scaled(a: Seq<int>, c: int, m: int) -> Seq<int> {
    Seq::new(a.len(), |i: int| (a[i] * c) % m)
}

/// The slots that hold a list of values: the values in order from the
/// first slot on, and zero in the slots that are left.
pub open spec fn packed(list: Seq<int>, slots: nat) -> Seq<int> {
    Seq::new(
        slots,
        |i: int|
            if i < list.len() {
                list[i]
            } else {
                0
            },
    )
}

/// A copy of a list of elements.
pub fn copy_slots(v: &Vec<FieldElement>) -> (r: Vec<FieldElement>)
    ensures
        r@ == v@,
{
    let len: usize = v.len();
    let mut r: Vec<FieldElement> = Vec::with_capacity(len);
    for i in 0..len
        invariant
            len == v@.len(),
            r@ == v@.subrange(0, i as int),
    {
        r.push(v[i]);
        assert(r@ =~= v@.subrange(0, i + 1));
    }
    assert(v@.subrange(0, len as int) =~= v@);
    r
}

/// Packs a list into `slots` slots.
pub fn pack(list: &Vec<FieldElement>, slots: usize) -> (r: Vec<FieldElement>)
    requires
        list@.len() <= slots,
        all_wf(list@),
    ensures
        r@.len() == slots,
        all_wf(r@),
        values(r@) == packed(values(list@), slots as nat),
{
    let len: usize = list.len();
    let mut r: Vec<FieldElement> = Vec::with_capacity(slots);
    for i in 0..slots
        invariant
            len == list@.len(),
            len <= slots,
            all_wf(list@),
            r@.len() == i,
            forall|t: int|
                0 <= t < i ==> (#[trigger] r@[t]).wf() && r@[t].value() == (if t < len {
                    list@[t].value()
                } else {
                    0
                }),
    {
        if i < len {
            r.push(list[i]);
        } else {
            r.push(FieldElement::zero());
        }
    }
    assert(values(r@) =~= packed(values(list@), slots as nat));
    r
}

/// The step of a rotation as a number of places to the left in a row of
/// `half` slots.
fn left_shift(step: i32, half: usize) -> (shift: usize)
    requires
        half >= 1,
    ensures
        shift < half,
        forall|col: int|
            0 <= col < half ==> #[trigger] source_column(col, step as int, half as int) == (col
                + shift) % (half as int),
{
    let shift: usize = if step >= 0 {
        (step as usize) % half
    } else {
        let back: usize = ((-(step as i64)) as usize) % half;
        if back == 0 {
            0
        } else {
            half - back
        }
    };
    proof {
        let h: int = half as int;
        let q: int = if step >= 0 {
            step as int / h
        } else if ((-(step as int)) % h) == 0 {
            -((-(step as int)) / h)
        } else {
            -((-(step as int)) / h) - 1
        };
        lemma_fundamental_div_mod(step as int, h);
        lemma_fundamental_div_mod(-(step as int), h);
        assert(step - shift == q * h) by (nonlinear_arith)
            requires
                step >= 0 ==> q == step as int / h && step == h * (step as int / h) + shift,
                step < 0 && (-(step as int)) % h == 0 ==> q == -((-(step as int)) / h) && -(
                step as int) == h * ((-(step as int)) / h) && shift == 0,
                step < 0 && (-(step as int)) % h != 0 ==> q == -((-(step as int)) / h) - 1 && -(
                step as int) == h * ((-(step as int)) / h) + (h - shift),
        ;
        vstd::arithmetic::div_mod::lemma_mod_multiples_basic(q, h);
        assert forall|col: int| 0 <= col < half implies #[trigger] source_column(
            col,
            step as int,
            h,
        ) == (col + shift) % h by {
            lemma_same_remainder(col + step, col + shift, h);
        }
    }
    shift
}

/// Numbers whose difference is a multiple of `m` have one remainder.
proof fn lemma_same_remainder(a: int, b: int, m: int)
    requires
        m > 0,
        (a - b) % m == 0,
    ensures
        a % m == b % m,
{
    lemma_fundamental_div_mod(a - b, m);
    let q: int = (a - b) / m;
    assert(a == b + m * q);
    lemma_mod_multiples_vanish(q, b, m);
    assert(m * q == q * m) by (nonlinear_arith);
}

/// Rotates the slots by `step`.
pub fn rotate(c: &Vec<FieldElement>, step: i32) -> (r: Vec<FieldElement>)
    requires
        all_wf(c@),
    ensures
        r@.len() == c@.len(),
        all_wf(r@),
        values(r@) == rotated(values(c@), step as int),
{
    let slots: usize = c.len();
    let half: usize = slots / 2;
    if half == 0 {
        let r: Vec<FieldElement> = copy_slots(c);
        assert(values(r@) =~= rotated(values(c@), step as int));
        return r;
    }
    let shift: usize = left_shift(step, half);
    let mut r: Vec<FieldElement> = Vec::with_capacity(slots);
    for i in 0..slots
        invariant
            slots == c@.len(),
            half == slots / 2,
            half >= 1,
            shift < half,
            all_wf(c@),
            forall|col: int|
                0 <= col < half ==> #[trigger] source_column(col, step as int, half as int) == (col
                    + shift) % (half as int),
            r@.len() == i,
            forall|t: int|
                0 <= t < i ==> 0 <= rotate_source(t, step as int, slots as int) < slots
                    && #[trigger] r@[t] == c@[rotate_source(t, step as int, slots as int)],
    {
        let source: usize = if i < half {
            proof {
                lemma_mod_bound(i + shift, half as int);
                assert(source_column(i as int, step as int, half as int) == (i + shift) % (
                half as int));
            }
            (i + shift) % half
        } else if i < 2 * half {
            proof {
                lemma_mod_bound(i - half + shift, half as int);
                assert(source_column(i - half, step as int, half as int) == (i - half + shift) % (
                half as int));
            }
            half + (i - half + shift) % half
        } else {
            i
        };
        r.push(c[source]);
    }
    proof {
        assert(values(r@) =~= rotated(values(c@), step as int));
    }
    r
}

/// Adds the slots of `b` to those of `a`.
pub fn add_slots(a: &Vec<FieldElement>, b: &Vec<FieldElement>) -> (r: Vec<FieldElement>)
    requires
        a@.len() == b@.len(),
        all_wf(a@),
        all_wf(b@),
    ensures
        r@.len() == a@.len(),
        all_wf(r@),
        values(r@) == added(values(a@), values(b@), modulus()),
{
    let len: usize = a.len();
    let mut r: Vec<FieldElement> = Vec::with_capacity(len);
    for i in 0..len
        invariant
            len == a@.len(),
            len == b@.len(),
            all_wf(a@),
            all_wf(b@),
            r@.len() == i,
            forall|t: int|
                0 <= t < i ==> (#[trigger] r@[t]).wf() && r@[t].value() == (a@[t].value()
                    + b@[t].value()) % modulus(),
    {
        r.push(a[i].add(&b[i]));
    }
    assert(values(r@) =~= added(values(a@), values(b@), modulus()));
    r
}

/// Multiplies the slots of `a` by those of `b`.
pub fn multiply_slots(a: &Vec<FieldElement>, b: &Vec<FieldElement>) -> (r: Vec<FieldElement>)
    requires
        a@.len() == b@.len(),
        all_wf(a@),
        all_wf(b@),
    ensures
        r@.len() == a@.len(),
        all_wf(r@),
        values(r@) == multiplied(values(a@), values(b@), modulus()),
{
    let len: usize = a.len();
    let mut r: Vec<FieldElement> = Vec::with_capacity(len);
    for i in 0..len
        invariant
            len == a@.len(),
            len == b@.len(),
            all_wf(a@),
            all_wf(b@),
            r@.len() == i,
            forall|t: int|
                0 <= t < i ==> (#[trigger] r@[t]).wf() && r@[t].value() == (a@[t].value()
                    * b@[t].value()) % modulus(),
    {
        r.push(a[i].mul(&b[i]));
    }
    assert(values(r@) =~= multiplied(values(a@), values(b@), modulus()));
    r
}

/// Multiplies every slot by `c`.
pub fn scale_slots(a: &Vec<FieldElement>, c: &FieldElement) -> (r: Vec<FieldElement>)
    requires
        all_wf(a@),
        c.wf(),
    ensures
        r@.len() == a@.len(),
        all_wf(r@),
        values(r@) == scaled(values(a@), c.value(), modulus()),
{
    let len: usize = a.len();
    let mut r: Vec<FieldElement> = Vec::with_capacity(len);
    for i in 0..len
        invariant
            len == a@.len(),
            all_wf(a@),
            c.wf(),
            r@.len() == i,
            forall|t: int|
                0 <= t < i ==> (#[trigger] r@[t]).wf() && r@[t].value() == (a@[t].value()
                    * c.value()) % modulus(),
    {
        r.push(a[i].mul(c));
    }
    assert(values(r@) =~= scaled(values(a@), c.value(), modulus()));
    r
}

/// Whether `len` values fit into `slots` slots.
pub fn check_batch(len: usize, slots: usize) -> (result: Result<(), Error>)
    ensures
        result is Ok <==> len <= slots,
        result is Err ==> result == Err::<(), Error>(Error::BatchSlots),
{
    if len > slots {
        Err(Error::BatchSlots)
    } else {
        Ok(())
    }
}

/// Packs a list into `slots` slots, if it is not too long for them.
pub fn try_pack(list: &Vec<FieldElement>, slots: usize) -> (result: Result<
    Vec<FieldElement>,
    Error,
>)
    requires
        all_wf(list@),
    ensures
        result is Ok <==> list@.len() <= slots,
        result is Err ==> result == Err::<Vec<FieldElement>, Error>(Error::BatchSlots),
        result matches Ok(r) ==> r@.len() == slots && all_wf(r@) && values(r@) == packed(
            values(list@),
            slots as nat,
        ),
{
    match check_batch(list.len(), slots) {
        Err(e) => Err(e),
        Ok(()) => Ok(pack(list, slots)),
    }
}

} // verus!
