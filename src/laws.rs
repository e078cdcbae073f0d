//! Properties of the machine that hold across operations and steps.
use crate::decode::{immediate, instruction_of, lemma_fields_in_range, reg_l, Instruction};
use crate::machine::{next, Action, MachineView, Transition};
use crate::memory::{zeros, SegmentsView};
use crate::ops::{not_and, word_add, word_mul};
use vstd::prelude::*;

verus! {

/// A step from a well-formed state leads to a well-formed state: the eight
/// registers stay words, and segment 0 stays live.
pub proof fn lemma_step_keeps_registers_and_program(s: MachineView)
    requires
        s.wf(),
    ensures
        next(s) matches Transition::Next(t, _) ==> {
            &&& t.regs.len() == 8
            &&& forall|i: int| 0 <= i < 8 ==> 0 <= #[trigger] t.regs[i] <= u32::MAX
            &&& t.mem.is_live(0)
        },
{
    lemma_fields_in_range(s.current_word());
}

/// Segment 0 keeps a nonzero length across a step, except where the step is
/// a `LoadProgram` from an empty segment.
pub proof fn lemma_program_stays_nonempty(s: MachineView)
    requires
        s.wf(),
        s.mem.segment(0).len() > 0,
        s.pc < s.mem.segment(0).len() ==> !(instruction_of(s.current_word()) matches Instruction::LoadProgram { b, .. }
            && s.mem.is_live(s.regs[b as int] as int) && s.mem.segment(s.regs[b as int] as int).len() == 0),
    ensures
        next(s) matches Transition::Next(t, _) ==> t.mem.segment(0).len() > 0,
{
    lemma_fields_in_range(s.current_word());
    if s.mem.pool.len() > 0 {
        assert(s.mem.pool[s.mem.pool.len() - 1] > 0);
    }
}

/// An allocation hands out an identifier that was not live, binds it to a
/// zero-filled segment of the requested length, and changes no other slot.
pub proof fn lemma_allocation_is_fresh(v: SegmentsView, len: nat)
    requires
        v.wf(),
        v.can_allocate(),
    ensures
        !v.is_live(v.next_id()),
        v.next_id() != 0,
        v.allocated(len).is_live(v.next_id()),
        v.allocated(len).segment(v.next_id()) == zeros(len),
        forall|k: int|
            k != v.next_id() ==> #[trigger] v.allocated(len).is_live(k) == v.is_live(k)
                && (v.is_live(k) ==> v.allocated(len).segment(k) == v.segment(k)),
{
    if v.pool.len() > 0 {
        assert(v.pool[v.pool.len() - 1] > 0);
    }
}

/// After `free`, an identifier is dead, and it is the next one to be handed
/// out again.
pub proof fn lemma_free_releases(v: SegmentsView, id: int)
    requires
        v.wf(),
        id != 0,
        v.is_live(id),
    ensures
        !v.freed(id).is_live(id),
        v.freed(id).next_id() == id,
        v.freed(id).can_allocate(),
{
}

/// A dead identifier stays dead until an allocation hands it out: writes,
/// program loads, unmapping another segment and allocations of other
/// identifiers leave it dead.
pub proof fn lemma_dead_stays_dead(
    v: SegmentsView,
    id: int,
    len: nat,
    k: int,
    offset: int,
    value: u32,
    src: int,
    other: int,
)
    requires
        v.wf(),
        !v.is_live(id),
    ensures
        v.in_bounds(k, offset) ==> !v.written(k, offset, value).is_live(id),
        v.is_live(src) ==> !v.program_loaded(src).is_live(id),
        other != id && v.is_live(other) ==> !v.freed(other).is_live(id),
        v.next_id() != id ==> !v.allocated(len).is_live(id),
{
}

/// After `LoadProgram` from a nonzero segment, segment 0 is a copy of that
/// segment as it was then: a later write to the source leaves it unchanged.
pub proof fn lemma_program_load_copies(v: SegmentsView, id: int, offset: int, value: u32)
    requires
        v.wf(),
        id != 0,
        v.is_live(id),
    ensures
        v.program_loaded(id).segment(0) == v.segment(id),
        v.program_loaded(id).in_bounds(id, offset) ==> v.program_loaded(id).written(
            id,
            offset,
            value,
        ).segment(0) == v.segment(id),
{
}

/// `k` times 2^32.
pub open spec fn wraps(k: int) -> int {
    0x1_0000_0000 * k
}

/// Addition and multiplication agree with the mathematical results up to a
/// multiple of 2^32, and not-and is the complement of the conjunction.
pub proof fn lemma_word_arithmetic(x: u32, y: u32)
    ensures
        exists|k: int| word_add(x, y) + #[trigger] wraps(k) == x + y,
        exists|k: int| word_mul(x, y) + #[trigger] wraps(k) == x * y,
        not_and(x, y) == 0xFFFF_FFFFu32 ^ (x & y),
{
    let s = x + y;
    assert(word_add(x, y) + wraps(s / 0x1_0000_0000) == s);
    let p = x * y;
    assert(word_mul(x, y) + wraps(p / 0x1_0000_0000) == p);
    assert(!(x & y) == 0xFFFF_FFFFu32 ^ (x & y)) by (bit_vector);
}

/// Mapping a segment and unmapping it again leaves the live segments as they
/// were and puts the identifier back on top of the pool.
pub proof fn lemma_map_then_unmap(v: SegmentsView, len: nat)
    requires
        v.wf(),
        v.can_allocate(),
    ensures
        ({
            let id = v.next_id();
            let t = v.allocated(len).freed(id);
            &&& forall|k: int| #[trigger] t.is_live(k) == v.is_live(k)
            &&& forall|k: int| v.is_live(k) ==> #[trigger] t.segment(k) == v.segment(k)
            &&& t.pool.last() == id as u32
            &&& v.pool.len() > 0 ==> t.pool == v.pool
        }),
{
    lemma_allocation_is_fresh(v, len);
    if v.pool.len() > 0 {
        assert(v.pool.drop_last().push(v.pool.last()) =~= v.pool);
    }
}

/// Not-and of a word with itself is its complement, and doing it twice gives
/// the word back.
pub proof fn lemma_not_and_self(x: u32)
    ensures
        not_and(x, x) == !x,
        not_and(not_and(x, x), not_and(x, x)) == x,
{
    assert(!(x & x) == !x) by (bit_vector);
    assert(!(!x & !x) == x) by (bit_vector);
}

/// A second `LoadValue` to the same register replaces the first completely.
pub proof fn lemma_load_value_overwrites(regs: Seq<u32>, first: u32, second: u32)
    requires
        regs.len() == 8,
        reg_l(first) == reg_l(second),
    ensures
        regs.update(reg_l(first) as int, immediate(first)).update(
            reg_l(second) as int,
            immediate(second),
        ) == regs.update(reg_l(second) as int, immediate(second)),
{
    lemma_fields_in_range(first);
    assert(regs.update(reg_l(first) as int, immediate(first)).update(
        reg_l(second) as int,
        immediate(second),
    ) =~= regs.update(reg_l(second) as int, immediate(second)));
}

/// A segment of length 0 can be allocated; it is live, and no offset is
/// within it.
pub proof fn lemma_empty_segment(v: SegmentsView)
    requires
        v.wf(),
        v.can_allocate(),
    ensures
        v.allocated(0).is_live(v.next_id()),
        forall|offset: int| !#[trigger] v.allocated(0).in_bounds(v.next_id(), offset),
{
    lemma_allocation_is_fresh(v, 0);
}

/// `Divide` by a register that holds 1 copies the dividend.
pub proof fn lemma_divide_by_one(s: MachineView)
    requires
        s.wf(),
        s.pc < s.mem.segment(0).len(),
        instruction_of(s.current_word()) matches Instruction::Divide { c, .. } && s.regs[c as int]
            == 1,
    ensures
        next(s) matches Transition::Next(t, Action::Continue) && (instruction_of(
            s.current_word(),
        ) matches Instruction::Divide { a, b, .. } && t.regs[a as int] == s.regs[b as int]),
{
    lemma_fields_in_range(s.current_word());
}

} // verus!
