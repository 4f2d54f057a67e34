//! Sequences of operations on ciphertexts, as they are handed to an
//! encryption engine, and what they compute in the plain model of the
//! slots.

use crate::error::Error;
use crate::field::{all_wf, modulus, values, FieldElement};
use crate::slots::{
    add_slots, added, copy_slots, multiplied, multiply_slots, pack, packed, rotate, rotated,
    scale_slots, scaled,
};
use vstd::prelude::*;

verus! {

/// An operation on ciphertext registers. Register 0 holds the ciphertext
/// that is given and, in the end, the result.
#[derive(Clone, Copy, Debug, PartialEq, Eq, Structural)]
pub enum Instruction {
    /// The engine's copy of `src` is put into `dst`.
    Copy { dst: usize, src: usize },
    /// `src` is moved into `dst`; the engine is not asked for anything,
    /// and `src` is not read again before it is written.
    Move { dst: usize, src: usize },
    /// The slots of `reg` are rotated by `step`.
    Rotate { reg: usize, step: i32 },
    /// `src` is added to `dst`.
    Add { dst: usize, src: usize },
    /// `dst` becomes the product of `src` and the packed plaintext with
    /// the number `plaintext`.
    MulPlain { dst: usize, src: usize, plaintext: usize },
    /// `dst` becomes the product of `src` and one field element.
    MulScalar { dst: usize, src: usize, scalar: FieldElement },
}

/// The instruction names registers and a plaintext that are there.
pub open spec fn instruction_ok(ins: Instruction, registers: nat, plaintexts: nat) -> bool {
    match ins {
        Instruction::Copy { dst, src } => dst < registers && src < registers,
        Instruction::Move { dst, src } => dst < registers && src < registers,
        Instruction::Rotate { reg, step } => reg < registers,
        Instruction::Add { dst, src } => dst < registers && src < registers,
        Instruction::MulPlain { dst, src, plaintext } => dst < registers && src < registers
            && plaintext < plaintexts,
        Instruction::MulScalar { dst, src, scalar } => dst < registers && src < registers
            && scalar.wf(),
    }
}

/// The registers after an instruction.
pub open spec fn apply(
    regs: Seq<Seq<int>>,
    ins: Instruction,
    plain: Seq<Seq<int>>,
    m: int,
) -> Seq<Seq<int>> {
    match ins {
        Instruction::Copy { dst, src } => regs.update(dst as int, regs[src as int]),
        Instruction::Move { dst, src } => regs.update(dst as int, regs[src as int]),
        Instruction::Rotate { reg, step } => regs.update(
            reg as int,
            rotated(regs[reg as int], step as int),
        ),
        Instruction::Add { dst, src } => regs.update(
            dst as int,
            added(regs[dst as int], regs[src as int], m),
        ),
        Instruction::MulPlain { dst, src, plaintext } => regs.update(
            dst as int,
            multiplied(regs[src as int], plain[plaintext as int], m),
        ),
        Instruction::MulScalar { dst, src, scalar } => regs.update(
            dst as int,
            scaled(regs[src as int], scalar.value(), m),
        ),
    }
}

/// The registers after a sequence of instructions.
pub open spec fn run(
    program: Seq<Instruction>,
    regs: Seq<Seq<int>>,
    plain: Seq<Seq<int>>,
    m: int,
) -> Seq<Seq<int>>
    decreases program.len(),
{
    if program.len() == 0 {
        regs
    } else {
        apply(run(program.drop_last(), regs, plain, m), program.last(), plain, m)
    }
}

/// Why the engine refuses an instruction, if it does: the instruction
/// names what is not there, or it is a rotation by a step without a key.
pub open spec fn refusal(
    ins: Instruction,
    registers: nat,
    plaintexts: nat,
    keys: Seq<i32>,
) -> Option<Error> {
    if !instruction_ok(ins, registers, plaintexts) {
        Some(Error::InvalidProgram)
    } else {
        match ins {
            Instruction::Rotate { reg, step } => if keys.contains(step) {
                None
            } else {
                Some(Error::MissingKey { step })
            },
            _ => None,
        }
    }
}

/// The refusal of the first instruction that is refused, if one is.
pub open spec fn first_refusal(
    program: Seq<Instruction>,
    registers: nat,
    plaintexts: nat,
    keys: Seq<i32>,
) -> Option<Error>
    decreases program.len(),
{
    if program.len() == 0 {
        None
    } else {
        match first_refusal(program.drop_last(), registers, plaintexts, keys) {
            Some(e) => Some(e),
            None => refusal(program.last(), registers, plaintexts, keys),
        }
    }
}

/// The registers at the start: the values that are given, packed, in
/// register 0 and zeros in the others.
pub open spec fn initial_registers(input: Seq<int>, registers: nat, slots: nat) -> Seq<Seq<int>> {
    Seq::new(
        registers,
        |r: int|
            if r == 0 {
                packed(input, slots)
            } else {
                packed(Seq::<int>::empty(), slots)
            },
    )
}

/// The registers at the start where several lists of values are given:
/// list `r`, packed, in register `r`, and zeros in the registers that
/// are left.
pub open spec fn loaded_registers(
    inputs: Seq<Vec<FieldElement>>,
    registers: nat,
    slots: nat,
) -> Seq<Seq<int>> {
    Seq::new(
        registers,
        |r: int|
            if r < inputs.len() {
                packed(values(inputs[r]@), slots)
            } else {
                packed(Seq::<int>::empty(), slots)
            },
    )
}

/// The plaintexts, each packed into the slots.
pub open spec fn packed_plaintexts(plaintexts: Seq<Vec<FieldElement>>, slots: nat) -> Seq<
    Seq<int>,
> {
    Seq::new(plaintexts.len(), |p: int| packed(values(plaintexts[p]@), slots))
}

/// Every list is one of field elements.
pub open spec fn lists_wf(lists: Seq<Vec<FieldElement>>) -> bool {
    forall|p: int| 0 <= p < lists.len() ==> all_wf((#[trigger] lists[p])@)
}

/// Every list fits into the slots.
pub open spec fn lists_fit(lists: Seq<Vec<FieldElement>>, slots: nat) -> bool {
    forall|p: int| 0 <= p < lists.len() ==> (#[trigger] lists[p])@.len() <= slots
}

/// Why an evaluation fails, if it does: values or a plaintext do not fit
/// into the slots, there is no register, or the engine refuses an
/// instruction.
pub open spec fn evaluation_error(
    program: Seq<Instruction>,
    plaintexts: Seq<Vec<FieldElement>>,
    registers: nat,
    input_len: nat,
    slots: nat,
    keys: Seq<i32>,
) -> Option<Error> {
    if input_len > slots || !lists_fit(plaintexts, slots) {
        Some(Error::BatchSlots)
    } else if registers == 0 {
        Some(Error::InvalidProgram)
    } else {
        first_refusal(program, registers, plaintexts.len(), keys)
    }
}

/// Why an evaluation on several lists of values fails, if it does: a
/// list or a plaintext does not fit into the slots, there are more lists
/// than registers, or the engine refuses an instruction.
pub open spec fn registers_error(
    program: Seq<Instruction>,
    plaintexts: Seq<Vec<FieldElement>>,
    registers: nat,
    inputs: Seq<Vec<FieldElement>>,
    slots: nat,
    keys: Seq<i32>,
) -> Option<Error> {
    if !lists_fit(inputs, slots) || !lists_fit(plaintexts, slots) {
        Some(Error::BatchSlots)
    } else if inputs.len() > registers {
        Some(Error::InvalidProgram)
    } else {
        first_refusal(program, registers, plaintexts.len(), keys)
    }
}

/// The values of the registers.
pub open spec fn register_values(regs: Seq<Vec<FieldElement>>) -> Seq<Seq<int>> {
    Seq::new(regs.len(), |r: int| values(regs[r]@))
}

/// Whether a key for the step is among the keys.
fn has_key(keys: &Vec<i32>, step: i32) -> (b: bool)
    ensures
        b == keys@.contains(step),
{
    let len: usize = keys.len();
    for i in 0..len
        invariant
            len == keys@.len(),
            forall|j: int| 0 <= j < i ==> keys@[j] != step,
    {
        if keys[i] == step {
            return true;
        }
    }
    false
}

/// Whether every plaintext fits into the slots.
fn all_fit(plaintexts: &Vec<Vec<FieldElement>>, slots: usize) -> (b: bool)
    ensures
        b == lists_fit(plaintexts@, slots as nat),
{
    let len: usize = plaintexts.len();
    for p in 0..len
        invariant
            len == plaintexts@.len(),
            forall|q: int| 0 <= q < p ==> (#[trigger] plaintexts@[q])@.len() <= slots,
    {
        if plaintexts[p].len() > slots {
            return false;
        }
    }
    true
}

/// Runs a sequence of instructions in the plain model on several lists
/// of values: list `r` is packed into register `r`, the plaintexts are
/// packed, every instruction is carried out on the slots, and the slots
/// of all registers come back. A rotation is refused unless its step is
/// among the keys.
pub fn evaluate_registers(
    program: &Vec<Instruction>,
    plaintexts: &Vec<Vec<FieldElement>>,
    registers: usize,
    inputs: &Vec<Vec<FieldElement>>,
    slots: usize,
    keys: &Vec<i32>,
) -> (result: Result<Vec<Vec<FieldElement>>, Error>)
    requires
        lists_wf(inputs@),
        lists_wf(plaintexts@),
    ensures
        match result {
            Ok(output) => {
                &&& registers_error(
                    program@,
                    plaintexts@,
                    registers as nat,
                    inputs@,
                    slots as nat,
                    keys@,
                ) is None
                &&& output@.len() == registers
                &&& forall|r: int|
                    0 <= r < registers ==> (#[trigger] output@[r])@.len() == slots && all_wf(
                        output@[r]@,
                    )
                &&& register_values(output@) == run(
                    program@,
                    loaded_registers(inputs@, registers as nat, slots as nat),
                    packed_plaintexts(plaintexts@, slots as nat),
                    modulus(),
                )
            },
            Err(e) => registers_error(
                program@,
                plaintexts@,
                registers as nat,
                inputs@,
                slots as nat,
                keys@,
            ) == Some(e),
        },
{
    if !all_fit(inputs, slots) || !all_fit(plaintexts, slots) {
        return Err(Error::BatchSlots);
    }
    let given: usize = inputs.len();
    if given > registers {
        return Err(Error::InvalidProgram);
    }
    let count: usize = plaintexts.len();
    let mut plain: Vec<Vec<FieldElement>> = Vec::with_capacity(count);
    for p in 0..count
        invariant
            count == plaintexts@.len(),
            lists_wf(plaintexts@),
            lists_fit(plaintexts@, slots as nat),
            plain@.len() == p,
            forall|q: int|
                0 <= q < p ==> (#[trigger] plain@[q])@.len() == slots && all_wf(plain@[q]@)
                    && values(plain@[q]@) == packed(values(plaintexts@[q]@), slots as nat),
    {
        plain.push(pack(&plaintexts[p], slots));
    }
    let empty: Vec<FieldElement> = Vec::new();
    let mut regs: Vec<Vec<FieldElement>> = Vec::with_capacity(registers);
    for r in 0..registers
        invariant
            empty@.len() == 0,
            given == inputs@.len(),
            given <= registers,
            lists_wf(inputs@),
            lists_fit(inputs@, slots as nat),
            regs@.len() == r,
            forall|q: int|
                0 <= q < r ==> (#[trigger] regs@[q])@.len() == slots && all_wf(regs@[q]@)
                    && values(regs@[q]@) == (if q < given {
                    packed(values(inputs@[q]@), slots as nat)
                } else {
                    packed(Seq::<int>::empty(), slots as nat)
                }),
    {
        if r < given {
            regs.push(pack(&inputs[r], slots));
        } else {
            let zeros: Vec<FieldElement> = pack(&empty, slots);
            assert(values(empty@) =~= Seq::<int>::empty());
            regs.push(zeros);
        }
    }
    let ghost start: Seq<Seq<int>> = loaded_registers(inputs@, registers as nat, slots as nat);
    let ghost packed_all: Seq<Seq<int>> = packed_plaintexts(plaintexts@, slots as nat);
    proof {
        assert(register_values(regs@) =~= start);
        assert(program@.subrange(0, 0) =~= Seq::<Instruction>::empty());
    }
    let length: usize = program.len();
    for pc in 0..length
        invariant
            length == program@.len(),
            count == plaintexts@.len(),
            inputs@.len() <= registers,
            lists_fit(inputs@, slots as nat),
            lists_fit(plaintexts@, slots as nat),
            regs@.len() == registers,
            plain@.len() == count,
            packed_all == packed_plaintexts(plaintexts@, slots as nat),
            forall|q: int|
                0 <= q < count ==> (#[trigger] plain@[q])@.len() == slots && all_wf(plain@[q]@)
                    && values(plain@[q]@) == packed(values(plaintexts@[q]@), slots as nat),
            forall|q: int|
                0 <= q < registers ==> (#[trigger] regs@[q])@.len() == slots && all_wf(regs@[q]@),
            first_refusal(program@.subrange(0, pc as int), registers as nat, count as nat, keys@)
                is None,
            register_values(regs@) == run(
                program@.subrange(0, pc as int),
                start,
                packed_all,
                modulus(),
            ),
    {
        let ins: Instruction = program[pc];
        let ghost done: Seq<Instruction> = program@.subrange(0, pc as int);
        let ghost next: Seq<Instruction> = program@.subrange(0, pc + 1);
        let ghost before: Seq<Seq<int>> = register_values(regs@);
        proof {
            assert(next.drop_last() =~= done);
            assert(next.last() == ins);
            assert(program@.subrange(0, length as int) =~= program@);
            lemma_refusal_spreads(program@, pc + 1, registers as nat, count as nat, keys@);
        }
        match ins {
            Instruction::Copy { dst, src } => {
                if dst >= registers || src >= registers {
                    return Err(Error::InvalidProgram);
                }
                let value: Vec<FieldElement> = copy_slots(&regs[src]);
                regs[dst] = value;
                assert(register_values(regs@) =~= apply(before, ins, packed_all, modulus()));
            },
            Instruction::Move { dst, src } => {
                if dst >= registers || src >= registers {
                    return Err(Error::InvalidProgram);
                }
                let value: Vec<FieldElement> = copy_slots(&regs[src]);
                regs[dst] = value;
                assert(register_values(regs@) =~= apply(before, ins, packed_all, modulus()));
            },
            Instruction::Rotate { reg, step } => {
                if reg >= registers {
                    return Err(Error::InvalidProgram);
                }
                if !has_key(keys, step) {
                    return Err(Error::MissingKey { step });
                }
                let value: Vec<FieldElement> = rotate(&regs[reg], step);
                regs[reg] = value;
                assert(register_values(regs@) =~= apply(before, ins, packed_all, modulus()));
            },
            Instruction::Add { dst, src } => {
                if dst >= registers || src >= registers {
                    return Err(Error::InvalidProgram);
                }
                let value: Vec<FieldElement> = add_slots(&regs[dst], &regs[src]);
                regs[dst] = value;
                assert(register_values(regs@) =~= apply(before, ins, packed_all, modulus()));
            },
            Instruction::MulPlain { dst, src, plaintext } => {
                if dst >= registers || src >= registers || plaintext >= count {
                    return Err(Error::InvalidProgram);
                }
                let value: Vec<FieldElement> = multiply_slots(&regs[src], &plain[plaintext]);
                regs[dst] = value;
                assert(register_values(regs@) =~= apply(before, ins, packed_all, modulus()));
            },
            Instruction::MulScalar { dst, src, scalar } => {
                if dst >= registers || src >= registers || !scalar.is_wf() {
                    return Err(Error::InvalidProgram);
                }
                let value: Vec<FieldElement> = scale_slots(&regs[src], &scalar);
                regs[dst] = value;
                assert(register_values(regs@) =~= apply(before, ins, packed_all, modulus()));
            },
        }
    }
    proof {
        assert(program@.subrange(0, length as int) =~= program@);
    }
    Ok(regs)
}

/// Runs a sequence of instructions in the plain model: the given values
/// are packed into register 0, the plaintexts are packed, every
/// instruction is carried out on the slots, and the slots of register 0
/// come back. A rotation is refused unless its step is among the keys.
pub fn evaluate_plain(
    program: &Vec<Instruction>,
    plaintexts: &Vec<Vec<FieldElement>>,
    registers: usize,
    input: &Vec<FieldElement>,
    slots: usize,
    keys: &Vec<i32>,
) -> (result: Result<Vec<FieldElement>, Error>)
    requires
        all_wf(input@),
        lists_wf(plaintexts@),
    ensures
        match result {
            Ok(output) => {
                &&& evaluation_error(
                    program@,
                    plaintexts@,
                    registers as nat,
                    input@.len(),
                    slots as nat,
                    keys@,
                ) is None
                &&& output@.len() == slots
                &&& all_wf(output@)
                &&& values(output@) == run(
                    program@,
                    initial_registers(values(input@), registers as nat, slots as nat),
                    packed_plaintexts(plaintexts@, slots as nat),
                    modulus(),
                )[0]
            },
            Err(e) => evaluation_error(
                program@,
                plaintexts@,
                registers as nat,
                input@.len(),
                slots as nat,
                keys@,
            ) == Some(e),
        },
{
    if input.len() > slots || !all_fit(plaintexts, slots) {
        return Err(Error::BatchSlots);
    }
    if registers == 0 {
        return Err(Error::InvalidProgram);
    }
    let mut inputs: Vec<Vec<FieldElement>> = Vec::with_capacity(1);
    inputs.push(copy_slots(input));
    proof {
        assert(lists_wf(inputs@));
        assert(lists_fit(inputs@, slots as nat));
        assert(loaded_registers(inputs@, registers as nat, slots as nat) =~= initial_registers(
            values(input@),
            registers as nat,
            slots as nat,
        ));
    }
    match evaluate_registers(program, plaintexts, registers, &inputs, slots, keys) {
        Err(e) => Err(e),
        Ok(regs) => {
            let output: Vec<FieldElement> = copy_slots(&regs[0]);
            proof {
                assert(register_values(regs@)[0] == values(regs@[0]@));
            }
            Ok(output)
        },
    }
}

/// A refusal within a part of a program is the refusal of the whole.
proof fn lemma_refusal_spreads(
    program: Seq<Instruction>,
    upto: int,
    registers: nat,
    plaintexts: nat,
    keys: Seq<i32>,
)
    requires
        0 <= upto <= program.len(),
    ensures
        first_refusal(program.subrange(0, upto), registers, plaintexts, keys) is Some
            ==> first_refusal(program, registers, plaintexts, keys) == first_refusal(
            program.subrange(0, upto),
            registers,
            plaintexts,
            keys,
        ),
    decreases program.len() - upto,
{
    if first_refusal(program.subrange(0, upto), registers, plaintexts, keys) is None {
    } else if upto == program.len() {
        assert(program.subrange(0, upto) =~= program);
    } else {
        let longer = program.subrange(0, upto + 1);
        assert(longer.drop_last() =~= program.subrange(0, upto));
        lemma_refusal_spreads(program, upto + 1, registers, plaintexts, keys);
    }
}

/// The instruction is a rotation by `step`.
pub open spec fn is_rotation_by(ins: Instruction, step: int) -> bool {
    match ins {
        Instruction::Rotate { reg, step: s } => s == step,
        _ => false,
    }
}

/// The program asks for a rotation by `step`.
pub open spec fn requests(program: Seq<Instruction>, step: int) -> bool {
    exists|idx: int| 0 <= idx < program.len() && is_rotation_by(#[trigger] program[idx], step)
}

/// Every instruction names registers and a plaintext that are there.
pub open spec fn well_formed(program: Seq<Instruction>, registers: nat, plaintexts: nat) -> bool {
    forall|idx: int|
        0 <= idx < program.len() ==> instruction_ok(#[trigger] program[idx], registers, plaintexts)
}

/// A program with one more instruction asks for what the program asks
/// for and for the instruction's step, if it is a rotation.
pub proof fn lemma_requests_push(program: Seq<Instruction>, ins: Instruction, step: int)
    ensures
        requests(program.push(ins), step) <==> requests(program, step) || is_rotation_by(ins, step),
{
    let longer = program.push(ins);
    if requests(program, step) {
        let idx = choose|idx: int|
            0 <= idx < program.len() && is_rotation_by(#[trigger] program[idx], step);
        assert(longer[idx] == program[idx]);
    }
    if is_rotation_by(ins, step) {
        assert(longer[program.len() as int] == ins);
    }
    if requests(longer, step) {
        let idx = choose|idx: int|
            0 <= idx < longer.len() && is_rotation_by(#[trigger] longer[idx], step);
        if idx < program.len() {
            assert(longer[idx] == program[idx]);
        }
    }
}

/// The engine carries a well-formed program out if and only if there is a
/// key for every step that the program asks for; otherwise it refuses a
/// rotation by a step that the program asks for and that has no key.
pub proof fn lemma_refusal(
    program: Seq<Instruction>,
    registers: nat,
    plaintexts: nat,
    keys: Seq<i32>,
)
    requires
        well_formed(program, registers, plaintexts),
    ensures
        first_refusal(program, registers, plaintexts, keys) is None <==> (forall|step: i32|
            requests(program, step as int) ==> #[trigger] keys.contains(step)),
        first_refusal(program, registers, plaintexts, keys) matches Some(e) ==> exists|step: i32|
            e == (Error::MissingKey { step }) && requests(program, step as int)
                && !#[trigger] keys.contains(step),
    decreases program.len(),
{
    if program.len() > 0 {
        let before = program.drop_last();
        let last = program.last();
        assert(program =~= before.push(last));
        assert forall|idx: int| 0 <= idx < before.len() implies instruction_ok(
            #[trigger] before[idx],
            registers,
            plaintexts,
        ) by {
            assert(before[idx] == program[idx]);
        }
        lemma_refusal(before, registers, plaintexts, keys);
        assert forall|step: i32|
            requests(program, step as int) <==> requests(before, step as int) || is_rotation_by(
                last,
                step as int,
            ) by {
            lemma_requests_push(before, last, step as int);
        }
        assert(instruction_ok(program[program.len() - 1], registers, plaintexts));
        match first_refusal(before, registers, plaintexts, keys) {
            Some(e) => {
                let step = choose|step: i32|
                    e == (Error::MissingKey { step }) && requests(before, step as int)
                        && !#[trigger] keys.contains(step);
                assert(requests(program, step as int));
            },
            None => {
                match last {
                    Instruction::Rotate { reg, step } => {
                        assert(is_rotation_by(last, step as int));
                        assert(requests(program, step as int));
                    },
                    _ => {},
                }
            },
        }
    }
}

} // verus!
