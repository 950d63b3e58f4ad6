//! The PIO program that measures IR pulse and space durations, assembled with
//! the `pio` crate's assembler.
//!
//! Each pushed FIFO word is `(count << 1) | polarity`, where polarity is 0 for
//! a pulse (pin low) and 1 for a space (pin high). Encoding polarity in the
//! word itself lets software stay in sync even if a FIFO entry is dropped.
use vstd::prelude::*;

use pio::{Assembler, Label, Program};

verus! {

#[verifier::external_type_specification]
#[verifier::external_body]
pub struct ExAssembler<const PROGRAM_SIZE: usize>(Assembler<PROGRAM_SIZE>);

#[verifier::external_type_specification]
#[verifier::external_body]
pub struct ExLabel(Label);

#[verifier::external_type_specification]
#[verifier::external_body]
pub struct ExProgram<const PROGRAM_SIZE: usize>(Program<PROGRAM_SIZE>);

/// Instruction memory of one RP2040 PIO block, in instructions.
pub const PIO_PROGRAM_CAPACITY: usize = 32;

/// The instructions an assembler holds, each as pio encodes its operands:
/// (kind, first operand, second operand). Kind 0 is `jmp`, whose second
/// operand is its target address, or, while its label is unbound, the
/// position of the previous jump to that label (255 for none).
pub uninterp spec fn assembled_instructions(a: Assembler<32>) -> Seq<(u16, u16, u16)>;

/// The assembler has the default side-set configuration and all its
/// instructions have delay 0 and no side-set value, so each encodes to its
/// operand word alone.
pub uninterp spec fn assembler_plain(a: Assembler<32>) -> bool;

/// Whether a label has been bound to an instruction position.
pub uninterp spec fn label_bound(l: Label) -> bool;

/// A bound label's position, or an unbound label's last pending jump (255 for none).
pub uninterp spec fn label_offset(l: Label) -> u8;

/// The instruction words of an assembled program.
pub uninterp spec fn program_code(p: Program<32>) -> Seq<u16>;

/// The wrap (source, target) of an assembled program.
pub uninterp spec fn program_wrap(p: Program<32>) -> (u8, u8);

/// The 16-bit word of an instruction without delay or side-set:
/// kind in bits 13..15, first operand from bit 5, second operand from bit 0.
pub open spec fn pio_word(i: (u16, u16, u16)) -> u16 {
    (i.0 << 13u16) | (i.1 << 5u16) | i.2
}

/// The pending jumps of an unbound label, starting at position `p`, form a
/// chain of `jmp` instructions of `instrs`, each naming an earlier one, that
/// ends at 255.
pub open spec fn pending_chain_ok(instrs: Seq<(u16, u16, u16)>, p: int) -> bool
    decreases p,
{
    p == 255 || (0 <= p < instrs.len() && instrs[p].0 == 0 && (instrs[p].2 == 255 || (
    instrs[p].2 < p && pending_chain_ok(instrs, instrs[p].2 as int))))
}

/// `instrs` with every jump on the chain starting at `p` retargeted to `address`.
pub open spec fn patch_chain(instrs: Seq<(u16, u16, u16)>, p: int, address: u16) -> Seq<
    (u16, u16, u16),
>
    decreases p,
{
    if 0 <= p < instrs.len() && p != 255 {
        let next = instrs[p].2 as int;
        let patched = instrs.update(p, (instrs[p].0, instrs[p].1, address));
        if next >= p {
            patched
        } else {
            patch_chain(patched, next, address)
        }
    } else {
        instrs
    }
}

/// Condition of a `jmp` instruction (the ones this program uses).
pub enum JumpCondition {
    Always,
    XDecNonZero,
    PinHigh,
}

/// Source of an `in` instruction (the one this program uses).
pub enum InputSource {
    Y,
}

/// Destination of a `mov` instruction (the ones this program uses).
pub enum MoveDestination {
    X,
    Isr,
}

/// Operation of a `mov` instruction (the one this program uses).
pub enum MoveOperation {
    Invert,
}

/// Source of a `mov` instruction (the ones this program uses).
pub enum MoveSource {
    X,
    Null,
}

/// Destination of a `set` instruction (the one this program uses).
pub enum SetTarget {
    Y,
}

/// pio's code for a jump condition.
pub open spec fn jump_code(c: JumpCondition) -> u16 {
    match c {
        JumpCondition::Always => 0,
        JumpCondition::XDecNonZero => 2,
        JumpCondition::PinHigh => 6,
    }
}

/// pio's code for an `in` source.
pub open spec fn input_code(s: InputSource) -> u16 {
    match s {
        InputSource::Y => 2,
    }
}

/// pio's code for a `mov` destination.
pub open spec fn move_destination_code(d: MoveDestination) -> u16 {
    match d {
        MoveDestination::X => 1,
        MoveDestination::Isr => 6,
    }
}

/// pio's code for a `mov` operation.
pub open spec fn move_operation_code(op: MoveOperation) -> u16 {
    match op {
        MoveOperation::Invert => 1,
    }
}

/// pio's code for a `mov` source.
pub open spec fn move_source_code(s: MoveSource) -> u16 {
    match s {
        MoveSource::X => 1,
        MoveSource::Null => 3,
    }
}

/// pio's code for a `set` destination.
pub open spec fn set_code(d: SetTarget) -> u16 {
    match d {
        SetTarget::Y => 2,
    }
}

/// Calls `pio::Assembler::<32>::new`: an assembler with no instructions and
/// the default side-set configuration.
#[verifier::external_body]
fn assembler_new() -> (a: Assembler<32>)
    ensures
        assembled_instructions(a) == Seq::<(u16, u16, u16)>::empty(),
        assembler_plain(a),
{
    Assembler::<32>::new()
}

/// Calls `pio::Assembler::label`: a fresh unbound label with no pending
/// jump; the assembler is unchanged.
#[verifier::external_body]
fn assembler_label(a: &mut Assembler<32>) -> (l: Label)
    ensures
        assembled_instructions(*final(a)) == assembled_instructions(*old(a)),
        assembler_plain(*final(a)) == assembler_plain(*old(a)),
        !label_bound(l),
        label_offset(l) == 255,
{
    a.label()
}

/// Calls `pio::Assembler::bind`, which panics on a bound label, and walks the
/// label's chain of pending jumps through this assembler's instructions
/// (unchecked indexing, `unreachable!` on a non-jump): every jump on the chain
/// gets the current position as its address, and the label is bound there.
#[verifier::external_body]
fn assembler_bind(a: &mut Assembler<32>, l: &mut Label)
    requires
        !label_bound(*old(l)),
        pending_chain_ok(assembled_instructions(*old(a)), label_offset(*old(l)) as int),
    ensures
        assembled_instructions(*final(a)) == patch_chain(
            assembled_instructions(*old(a)),
            label_offset(*old(l)) as int,
            assembled_instructions(*old(a)).len() as u8 as u16,
        ),
        assembler_plain(*final(a)) == assembler_plain(*old(a)),
        label_bound(*final(l)),
        label_offset(*final(l)) == assembled_instructions(*old(a)).len() as u8,
{
    a.bind(l)
}

/// Calls `pio::Assembler::jmp`, which pushes onto a fixed-capacity `ArrayVec`
/// (a panic when full): appends a jump to the label's position if bound, else
/// to its previous pending jump, making this jump the label's latest pending one.
#[verifier::external_body]
fn assembler_jmp(a: &mut Assembler<32>, condition: JumpCondition, l: &mut Label)
    requires
        assembled_instructions(*old(a)).len() < PIO_PROGRAM_CAPACITY,
    ensures
        assembled_instructions(*final(a)) == assembled_instructions(*old(a)).push(
            (0u16, jump_code(condition), label_offset(*old(l)) as u16),
        ),
        assembler_plain(*final(a)) == assembler_plain(*old(a)),
        label_bound(*final(l)) == label_bound(*old(l)),
        label_offset(*final(l)) == if label_bound(*old(l)) {
            label_offset(*old(l))
        } else {
            assembled_instructions(*old(a)).len() as u8
        },
{
    let condition = match condition {
        JumpCondition::Always => pio::JmpCondition::Always,
        JumpCondition::XDecNonZero => pio::JmpCondition::XDecNonZero,
        JumpCondition::PinHigh => pio::JmpCondition::PinHigh,
    };
    a.jmp(condition, l)
}

/// Calls `pio::Assembler::set` (fixed-capacity push): appends `set destination, data`.
#[verifier::external_body]
fn assembler_set(a: &mut Assembler<32>, destination: SetTarget, data: u8)
    requires
        assembled_instructions(*old(a)).len() < PIO_PROGRAM_CAPACITY,
    ensures
        assembled_instructions(*final(a)) == assembled_instructions(*old(a)).push(
            (7u16, set_code(destination), data as u16),
        ),
        assembler_plain(*final(a)) == assembler_plain(*old(a)),
{
    let destination = match destination {
        SetTarget::Y => pio::SetDestination::Y,
    };
    a.set(destination, data)
}

/// Calls `pio::Assembler::mov` (fixed-capacity push): appends
/// `mov destination, op source`, the operation in bits 3..4 of the second operand.
#[verifier::external_body]
fn assembler_mov(a: &mut Assembler<32>, destination: MoveDestination, op: MoveOperation, source: MoveSource)
    requires
        assembled_instructions(*old(a)).len() < PIO_PROGRAM_CAPACITY,
    ensures
        assembled_instructions(*final(a)) == assembled_instructions(*old(a)).push(
            (5u16, move_destination_code(destination), (move_operation_code(op) << 3u16) | move_source_code(source)),
        ),
        assembler_plain(*final(a)) == assembler_plain(*old(a)),
{
    let destination = match destination {
        MoveDestination::X => pio::MovDestination::X,
        MoveDestination::Isr => pio::MovDestination::ISR,
    };
    let op = match op {
        MoveOperation::Invert => pio::MovOperation::Invert,
    };
    let source = match source {
        MoveSource::X => pio::MovSource::X,
        MoveSource::Null => pio::MovSource::NULL,
    };
    a.mov(destination, op, source)
}

/// Calls `pio::Assembler::in_with_delay` with delay 0, the same instruction
/// that `Assembler::r#in` emits (fixed-capacity push): appends `in source, bit_count`.
#[verifier::external_body]
fn assembler_in(a: &mut Assembler<32>, source: InputSource, bit_count: u8)
    requires
        assembled_instructions(*old(a)).len() < PIO_PROGRAM_CAPACITY,
    ensures
        assembled_instructions(*final(a)) == assembled_instructions(*old(a)).push(
            (2u16, input_code(source), bit_count as u16),
        ),
        assembler_plain(*final(a)) == assembler_plain(*old(a)),
{
    let source = match source {
        InputSource::Y => pio::InSource::Y,
    };
    a.in_with_delay(source, bit_count, 0)
}

/// Calls `pio::Assembler::push` (fixed-capacity push): appends a `push`, its
/// first operand `if_full` in bit 1 and `block` in bit 0.
#[verifier::external_body]
fn assembler_push(a: &mut Assembler<32>, if_full: bool, block: bool)
    requires
        assembled_instructions(*old(a)).len() < PIO_PROGRAM_CAPACITY,
    ensures
        assembled_instructions(*final(a)) == assembled_instructions(*old(a)).push(
            (4u16, (if if_full { 2u16 } else { 0u16 }) | (if block { 1u16 } else { 0u16 }), 0u16),
        ),
        assembler_plain(*final(a)) == assembler_plain(*old(a)),
{
    a.push(if_full, block)
}

/// Calls `pio::Assembler::assemble_program`, which computes the wrap source as
/// `code.len() - 1` (an underflow on an empty program), panics on delays or
/// side-set values its configuration rejects, and panics on some `wait` (kind 1)
/// and `irq` (kind 6) operands; this library emits neither: the program's words are the
/// instructions' encodings, and it wraps from its last instruction to the first.
#[verifier::external_body]
fn assembler_assemble(a: Assembler<32>) -> (p: Program<32>)
    requires
        assembled_instructions(a).len() > 0,
        assembler_plain(a),
        forall|i: int|
            0 <= i < assembled_instructions(a).len() ==> #[trigger] assembled_instructions(a)[i].0 != 1
                && assembled_instructions(a)[i].0 != 6,
    ensures
        program_code(p) == assembled_instructions(a).map_values(|i: (u16, u16, u16)| pio_word(i)),
        program_wrap(p) == ((assembled_instructions(a).len() - 1) as u8, 0u8),
{
    a.assemble_program()
}

/// For small operands the instruction word is their weighted sum.
proof fn lemma_pio_word_small(kind: u16, first: u16, second: u16)
    by (bit_vector)
    requires
        kind < 8,
        first < 8,
        second < 32,
    ensures
        (kind << 13u16) | (first << 5u16) | second == kind * 8192 + first * 32 + second,
{
}

/// The instructions of the IR measurement program, labels resolved:
/// `wait_start` = 0, `count_low` = 3, `low_done` = 5, `count_high` = 10,
/// `cont_high` = 15.
pub open spec fn ir_program_instructions() -> Seq<(u16, u16, u16)> {
    seq![
        (0u16, 6u16, 0u16),   // wait_start: jmp pin, wait_start
        (7, 2, 0),            // set y, 0
        (5, 1, 11),           // mov x, ~null
        (0, 6, 5),            // count_low: jmp pin, low_done
        (0, 2, 3),            // jmp x--, count_low
        (5, 6, 9),            // low_done: mov isr, ~x
        (2, 2, 1),            // in y, 1
        (4, 0, 0),            // push noblock
        (7, 2, 1),            // set y, 1
        (5, 1, 11),           // mov x, ~null
        (0, 6, 15),           // count_high: jmp pin, cont_high
        (5, 6, 9),            // mov isr, ~x
        (2, 2, 1),            // in y, 1
        (4, 0, 0),            // push noblock
        (0, 0, 0),            // jmp wait_start
        (0, 2, 10),           // cont_high: jmp x--, count_high
        (5, 6, 9),            // mov isr, ~x
        (2, 2, 1),            // in y, 1
        (4, 0, 0),            // push noblock
        (0, 0, 0),            // jmp wait_start
    ]
}

/// The machine code of the IR measurement program.
pub open spec fn ir_program_words() -> Seq<u16> {
    seq![
        0x00C0u16, 0xE040, 0xA02B, 0x00C5, 0x0043, 0xA0C9, 0x4041, 0x8000, 0xE041, 0xA02B,
        0x00CF, 0xA0C9, 0x4041, 0x8000, 0x0000, 0x004A, 0xA0C9, 0x4041, 0x8000, 0x0000,
    ]
}

/// Builds the PIO program for IR pulse/space measurement. While the pin is
/// low the program counts down X from all ones, then pushes `~X` shifted left
/// with a 0 (pulse) bit; while it is high it does the same with a 1 (space)
/// bit, and also pushes when the count runs out. It wraps from the last
/// instruction to the first.
pub fn build_ir_program() -> (p: Program<32>)
    ensures
        program_code(p) == ir_program_words(),
        program_wrap(p) == (19u8, 0u8),
{
    proof {
        // Second operands of the `mov` and `push` instructions used below.
        assert((1u16 << 3u16) | 3u16 == 11u16) by (bit_vector);
        assert((1u16 << 3u16) | 1u16 == 9u16) by (bit_vector);
        assert(0u16 | 0u16 == 0u16) by (bit_vector);
    }
    let mut a = assembler_new();

    let mut wait_start = assembler_label(&mut a);
    let mut count_low = assembler_label(&mut a);
    let mut low_done = assembler_label(&mut a);
    let mut count_high = assembler_label(&mut a);
    let mut cont_high = assembler_label(&mut a);

    // Wait for pin LOW (start of IR pulse).
    assembler_bind(&mut a, &mut wait_start);
    assembler_jmp(&mut a, JumpCondition::PinHigh, &mut wait_start);

    // Pin is now LOW: polarity = 0 (pulse), start measuring.
    assembler_set(&mut a, SetTarget::Y, 0);
    assembler_mov(&mut a, MoveDestination::X, MoveOperation::Invert, MoveSource::Null);

    // Count while pin is low (pulse duration).
    assembler_bind(&mut a, &mut count_low);
    assembler_jmp(&mut a, JumpCondition::PinHigh, &mut low_done);
    assembler_jmp(&mut a, JumpCondition::XDecNonZero, &mut count_low);

    let ghost before_low_done = assembled_instructions(a);
    proof {
        reveal_with_fuel(pending_chain_ok, 2);
    }
    assembler_bind(&mut a, &mut low_done);
    proof {
        reveal_with_fuel(patch_chain, 2);
        assert(assembled_instructions(a) == before_low_done.update(3, (0u16, 6u16, 5u16)));
    }
    // ISR = count (mov resets the input shift counter to 0).
    assembler_mov(&mut a, MoveDestination::Isr, MoveOperation::Invert, MoveSource::X);
    // Shift the polarity bit into ISR LSB: ISR = (count << 1) | 0.
    assembler_in(&mut a, InputSource::Y, 1);
    assembler_push(&mut a, false, false);

    // Pin is now HIGH: polarity = 1 (space), start measuring.
    assembler_set(&mut a, SetTarget::Y, 1);
    assembler_mov(&mut a, MoveDestination::X, MoveOperation::Invert, MoveSource::Null);

    assembler_bind(&mut a, &mut count_high);
    assembler_jmp(&mut a, JumpCondition::PinHigh, &mut cont_high);
    // Pin went low: done counting the space, push and restart.
    assembler_mov(&mut a, MoveDestination::Isr, MoveOperation::Invert, MoveSource::X);
    assembler_in(&mut a, InputSource::Y, 1);
    assembler_push(&mut a, false, false);
    assembler_jmp(&mut a, JumpCondition::Always, &mut wait_start);

    let ghost before_cont_high = assembled_instructions(a);
    proof {
        reveal_with_fuel(pending_chain_ok, 2);
    }
    assembler_bind(&mut a, &mut cont_high);
    proof {
        reveal_with_fuel(patch_chain, 2);
        assert(assembled_instructions(a) == before_cont_high.update(10, (0u16, 6u16, 15u16)));
    }
    assembler_jmp(&mut a, JumpCondition::XDecNonZero, &mut count_high);
    // X reached zero (timeout): push anyway and restart.
    assembler_mov(&mut a, MoveDestination::Isr, MoveOperation::Invert, MoveSource::X);
    assembler_in(&mut a, InputSource::Y, 1);
    assembler_push(&mut a, false, false);
    assembler_jmp(&mut a, JumpCondition::Always, &mut wait_start);

    proof {
        // A `pio::Label` dropped while unbound panics: all five are bound by now.
        assert(label_bound(wait_start) && label_bound(count_low) && label_bound(low_done)
            && label_bound(count_high) && label_bound(cont_high));
        let instrs = assembled_instructions(a);
        assert(instrs =~= ir_program_instructions());
        assert forall|i: int| 0 <= i < 20 implies #[trigger] pio_word(instrs[i]) == ir_program_words()[i] by {
            lemma_pio_word_small(instrs[i].0, instrs[i].1, instrs[i].2);
        }
        assert(instrs.map_values(|i: (u16, u16, u16)| pio_word(i)) =~= ir_program_words());
        assert(forall|i: int| 0 <= i < 20 ==> #[trigger] instrs[i].0 != 1 && instrs[i].0 != 6);
    }
    assembler_assemble(a)
}

} // verus!
