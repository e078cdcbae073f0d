//! The effect of each opcode on the registers and the segment store. Each
//! function takes the raw instruction word and reads its own operand fields.
use crate::decode::{get, reg_a, reg_b, reg_c, reg_l, immediate, lemma_fields_in_range, Field};
use crate::fault::Fault;
use crate::memory::Segments;
use vstd::prelude::*;

verus! {

/// `x + y` modulo 2^32.
pub open spec fn word_add(x: u32, y: u32) -> u32 {
    ((x + y) % 0x1_0000_0000) as u32
}

/// `x * y` modulo 2^32.
pub open spec fn word_mul(x: u32, y: u32) -> u32 {
    ((x * y) % 0x1_0000_0000) as u32
}

/// The bitwise complement of `x & y`.
pub open spec fn not_and(x: u32, y: u32) -> u32 {
    !(x & y)
}

fn field_a(instruction: u32) -> (r: usize)
    ensures
        r == reg_a(instruction),
        r < 8,
{
    proof {
        lemma_fields_in_range(instruction);
    }
    get(&Field { width: 3, lsb: 6 }, instruction) as usize
}

fn field_b(instruction: u32) -> (r: usize)
    ensures
        r == reg_b(instruction),
        r < 8,
{
    proof {
        lemma_fields_in_range(instruction);
    }
    get(&Field { width: 3, lsb: 3 }, instruction) as usize
}

fn field_c(instruction: u32) -> (r: usize)
    ensures
        r == reg_c(instruction),
        r < 8,
{
    proof {
        lemma_fields_in_range(instruction);
    }
    get(&Field { width: 3, lsb: 0 }, instruction) as usize
}

/// Conditional move: `if R[C] != 0 { R[A] = R[B] }`.
pub fn cmov(instruction: u32, registers: &mut [u32; 8])
    ensures
        final(registers)@ == (if old(registers)@[reg_c(instruction) as int] != 0 {
            old(registers)@.update(
                reg_a(instruction) as int,
                old(registers)@[reg_b(instruction) as int],
            )
        } else {
            old(registers)@
        }),
{
    let ra = field_a(instruction);
    let rb = field_b(instruction);
    let rc = field_c(instruction);
    if registers[rc] != 0 {
        registers[ra] = registers[rb];
    }
}

/// Segmented load: `R[A] = M[R[B]][R[C]]`.
pub fn load(instruction: u32, registers: &mut [u32; 8], memory: &Segments) -> (r: Result<(), Fault>)
    ensures
        ({
            let regs = old(registers)@;
            let (id, offset) = (
                regs[reg_b(instruction) as int] as int,
                regs[reg_c(instruction) as int] as int,
            );
            &&& memory@.in_bounds(id, offset) ==> r == Ok::<(), Fault>(()) && final(registers)@
                == regs.update(reg_a(instruction) as int, memory@.segment(id)[offset])
            &&& !memory@.is_live(id) ==> r == Err::<(), Fault>(Fault::InvalidSegment)
            &&& memory@.is_live(id) && !memory@.in_bounds(id, offset) ==> r == Err::<(), Fault>(
                Fault::OutOfBounds,
            )
            &&& r is Err ==> final(registers)@ == regs
        }),
{
    let ra = field_a(instruction);
    let rb = field_b(instruction);
    let rc = field_c(instruction);
    let value = memory.read(registers[rb], registers[rc])?;
    registers[ra] = value;
    Ok(())
}

/// Segmented store: `M[R[A]][R[B]] = R[C]`.
pub fn store(instruction: u32, registers: &[u32; 8], memory: &mut Segments) -> (r: Result<(), Fault>)
    requires
        old(memory)@.wf(),
    ensures
        final(memory)@.wf(),
        ({
            let (id, offset, value) = (
                registers@[reg_a(instruction) as int] as int,
                registers@[reg_b(instruction) as int] as int,
                registers@[reg_c(instruction) as int],
            );
            &&& old(memory)@.in_bounds(id, offset) ==> r == Ok::<(), Fault>(()) && final(memory)@
                == old(memory)@.written(id, offset, value)
            &&& !old(memory)@.is_live(id) ==> r == Err::<(), Fault>(Fault::InvalidSegment)
            &&& old(memory)@.is_live(id) && !old(memory)@.in_bounds(id, offset) ==> r == Err::<
                (),
                Fault,
            >(Fault::OutOfBounds)
            &&& r is Err ==> final(memory)@ == old(memory)@
        }),
{
    let ra = field_a(instruction);
    let rb = field_b(instruction);
    let rc = field_c(instruction);
    memory.write(registers[ra], registers[rb], registers[rc])
}

/// Addition: `R[A] = R[B] + R[C]`, modulo 2^32.
pub fn add(instruction: u32, registers: &mut [u32; 8])
    ensures
        final(registers)@ == old(registers)@.update(
            reg_a(instruction) as int,
            word_add(
                old(registers)@[reg_b(instruction) as int],
                old(registers)@[reg_c(instruction) as int],
            ),
        ),
{
    let ra = field_a(instruction);
    let rb = field_b(instruction);
    let rc = field_c(instruction);
    registers[ra] = registers[rb].wrapping_add(registers[rc]);
}

/// Multiplication: `R[A] = R[B] * R[C]`, modulo 2^32.
pub fn mul(instruction: u32, registers: &mut [u32; 8])
    ensures
        final(registers)@ == old(registers)@.update(
            reg_a(instruction) as int,
            word_mul(
                old(registers)@[reg_b(instruction) as int],
                old(registers)@[reg_c(instruction) as int],
            ),
        ),
{
    let ra = field_a(instruction);
    let rb = field_b(instruction);
    let rc = field_c(instruction);
    registers[ra] = registers[rb].wrapping_mul(registers[rc]);
}

/// Unsigned division: `R[A] = R[B] / R[C]`; a zero divisor is a fault.
pub fn div(instruction: u32, registers: &mut [u32; 8]) -> (r: Result<(), Fault>)
    ensures
        ({
            let regs = old(registers)@;
            let (x, y) = (regs[reg_b(instruction) as int], regs[reg_c(instruction) as int]);
            &&& y != 0 ==> r == Ok::<(), Fault>(()) && final(registers)@ == regs.update(
                reg_a(instruction) as int,
                (x / y) as u32,
            )
            &&& y == 0 ==> r == Err::<(), Fault>(Fault::DivisionByZero) && final(registers)@
                == regs
        }),
{
    let ra = field_a(instruction);
    let rb = field_b(instruction);
    let rc = field_c(instruction);
    if registers[rc] == 0 {
        return Err(Fault::DivisionByZero);
    }
    registers[ra] = registers[rb] / registers[rc];
    Ok(())
}

/// Not-and: `R[A] = !(R[B] & R[C])`.
pub fn nand(instruction: u32, registers: &mut [u32; 8])
    ensures
        final(registers)@ == old(registers)@.update(
            reg_a(instruction) as int,
            not_and(
                old(registers)@[reg_b(instruction) as int],
                old(registers)@[reg_c(instruction) as int],
            ),
        ),
{
    let ra = field_a(instruction);
    let rb = field_b(instruction);
    let rc = field_c(instruction);
    registers[ra] = !(registers[rb] & registers[rc]);
}

/// Map segment: a new zero-filled segment of `R[C]` words; its identifier
/// goes to `R[B]`.
pub fn map(instruction: u32, registers: &mut [u32; 8], memory: &mut Segments) -> (r: Result<(), Fault>)
    requires
        old(memory)@.wf(),
    ensures
        final(memory)@.wf(),
        ({
            let regs = old(registers)@;
            let len = regs[reg_c(instruction) as int];
            &&& old(memory)@.can_allocate() ==> r == Ok::<(), Fault>(()) && final(memory)@ == old(
                memory,
            )@.allocated(len as nat) && final(registers)@ == regs.update(
                reg_b(instruction) as int,
                old(memory)@.next_id() as u32,
            )
            &&& !old(memory)@.can_allocate() ==> r == Err::<(), Fault>(
                Fault::IdentifiersExhausted,
            ) && final(memory)@ == old(memory)@ && final(registers)@ == regs
        }),
{
    let rb = field_b(instruction);
    let rc = field_c(instruction);
    let address = memory.allocate(registers[rc])?;
    registers[rb] = address;
    Ok(())
}

/// Unmap segment `R[C]`, releasing its identifier for reuse.
pub fn unmap(instruction: u32, registers: &[u32; 8], memory: &mut Segments) -> (r: Result<(), Fault>)
    requires
        old(memory)@.wf(),
    ensures
        final(memory)@.wf(),
        ({
            let id = registers@[reg_c(instruction) as int] as int;
            &&& id != 0 && old(memory)@.is_live(id) ==> r == Ok::<(), Fault>(()) && final(memory)@
                == old(memory)@.freed(id)
            &&& !(id != 0 && old(memory)@.is_live(id)) ==> r == Err::<(), Fault>(
                Fault::InvalidSegment,
            ) && final(memory)@ == old(memory)@
        }),
{
    let rc = field_c(instruction);
    memory.free(registers[rc])
}

/// Output: the byte `R[C]`; a value above 255 is a fault.
pub fn output(instruction: u32, registers: &[u32; 8]) -> (r: Result<u8, Fault>)
    ensures
        ({
            let value = registers@[reg_c(instruction) as int];
            &&& value <= 255 ==> r == Ok::<u8, Fault>(value as u8)
            &&& value > 255 ==> r == Err::<u8, Fault>(Fault::OutputTooLarge)
        }),
{
    let rc = field_c(instruction);
    let value = registers[rc];
    if value > 255 {
        Err(Fault::OutputTooLarge)
    } else {
        Ok(value as u8)
    }
}

/// Load program: segment 0 becomes a copy of segment `R[B]` (unless `R[B]` is
/// 0) and the program counter becomes `R[C]`.
pub fn loadp(
    instruction: u32,
    registers: &[u32; 8],
    memory: &mut Segments,
    pcounter: &mut u32,
) -> (r: Result<(), Fault>)
    requires
        old(memory)@.wf(),
    ensures
        final(memory)@.wf(),
        ({
            let id = registers@[reg_b(instruction) as int] as int;
            &&& old(memory)@.is_live(id) ==> r == Ok::<(), Fault>(()) && final(memory)@ == old(
                memory,
            )@.program_loaded(id) && *final(pcounter) == registers@[reg_c(instruction) as int]
            &&& !old(memory)@.is_live(id) ==> r == Err::<(), Fault>(Fault::InvalidSegment)
                && final(memory)@ == old(memory)@ && *final(pcounter) == *old(pcounter)
        }),
{
    let rb = field_b(instruction);
    let rc = field_c(instruction);
    memory.load_program(registers[rb])?;
    *pcounter = registers[rc];
    Ok(())
}

/// Load value: `R[A] = value`, with the register in bits 25..27 and the value
/// in bits 0..24.
pub fn loadv(instruction: u32, registers: &mut [u32; 8])
    ensures
        final(registers)@ == old(registers)@.update(
            reg_l(instruction) as int,
            immediate(instruction),
        ),
{
    proof {
        lemma_fields_in_range(instruction);
    }
    let rl = get(&Field { width: 3, lsb: 25 }, instruction) as usize;
    let vl = get(&Field { width: 25, lsb: 0 }, instruction);
    registers[rl] = vl;
}

} // verus!
