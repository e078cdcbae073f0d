//! Splitting a 32-bit instruction word into its opcode and operand fields.
use vstd::arithmetic::power2::{lemma2_to64, pow2};
use vstd::bits::{
    lemma_u32_low_bits_mask_is_mod, lemma_u32_pow2_no_overflow,
    lemma_u32_shl_is_mul, lemma_u32_shr_is_div, low_bits_mask,
};
use vstd::prelude::*;

verus! {

/// A bit field of an instruction word: `width` bits starting at bit `lsb`.
pub struct Field {
    pub width: u32,
    pub lsb: u32,
}

/// The value of bits `lsb .. lsb + width - 1` of `word`.
pub open spec fn bits_of(word: u32, lsb: nat, width: nat) -> nat {
    (word as nat / pow2(lsb)) % pow2(width)
}

/// A word whose low `bits` bits are set and all others clear.
pub fn mask(bits: u32) -> (r: u32)
    requires
        bits < 32,
    ensures
        r as nat == low_bits_mask(bits as nat),
        r as nat == pow2(bits as nat) - 1,
{
    proof {
        lemma_u32_pow2_no_overflow(bits as nat);
        lemma_u32_shl_is_mul(1, bits);
    }
    (1u32 << bits) - 1
}

/// The value of `field` in `instruction`.
pub fn get(field: &Field, instruction: u32) -> (r: u32)
    requires
        field.width < 32,
        field.lsb < 32,
    ensures
        r as nat == bits_of(instruction, field.lsb as nat, field.width as nat),
{
    let m = mask(field.width);
    let shifted = instruction >> field.lsb;
    proof {
        lemma_u32_shr_is_div(instruction, field.lsb);
        lemma_u32_low_bits_mask_is_mod(shifted, field.width as nat);
        lemma_u32_pow2_no_overflow(field.width as nat);
    }
    shifted & m
}

/// A decoded instruction. Register operands are indices `0..8`.
#[derive(PartialEq, Eq, Structural, Clone, Copy, Debug)]
pub enum Instruction {
    /// `if R[c] != 0 { R[a] = R[b] }`
    ConditionalMove { a: usize, b: usize, c: usize },
    /// `R[a] = M[R[b]][R[c]]`
    SegmentedLoad { a: usize, b: usize, c: usize },
    /// `M[R[a]][R[b]] = R[c]`
    SegmentedStore { a: usize, b: usize, c: usize },
    /// `R[a] = R[b] + R[c]`, modulo 2^32
    Add { a: usize, b: usize, c: usize },
    /// `R[a] = R[b] * R[c]`, modulo 2^32
    Multiply { a: usize, b: usize, c: usize },
    /// `R[a] = R[b] / R[c]`, unsigned
    Divide { a: usize, b: usize, c: usize },
    /// `R[a] = !(R[b] & R[c])`
    NotAnd { a: usize, b: usize, c: usize },
    /// Stop the machine with success.
    Halt,
    /// Map a new zero-filled segment of `R[c]` words; its identifier goes to `R[b]`.
    MapSegment { b: usize, c: usize },
    /// Unmap segment `R[c]`.
    UnmapSegment { c: usize },
    /// Write the byte `R[c]` to the output.
    Output { c: usize },
    /// Read one byte of input into `R[c]`.
    Input { c: usize },
    /// Replace the program by a copy of segment `R[b]` and jump to `R[c]`.
    LoadProgram { b: usize, c: usize },
    /// `R[a] = value`, a 25-bit immediate.
    LoadValue { a: usize, value: u32 },
    /// Opcodes 14 and 15, which the machine does not define.
    Invalid { opcode: u32 },
}

/// The opcode: bits 28..31.
pub open spec fn opcode_of(word: u32) -> nat {
    bits_of(word, 28, 4)
}

/// Register field `a` of the standard form: bits 6..8.
pub open spec fn reg_a(word: u32) -> usize {
    bits_of(word, 6, 3) as usize
}

/// Register field `b` of the standard form: bits 3..5.
pub open spec fn reg_b(word: u32) -> usize {
    bits_of(word, 3, 3) as usize
}

/// Register field `c` of the standard form: bits 0..2.
pub open spec fn reg_c(word: u32) -> usize {
    bits_of(word, 0, 3) as usize
}

/// Register field of the load-value form: bits 25..27.
pub open spec fn reg_l(word: u32) -> usize {
    bits_of(word, 25, 3) as usize
}

/// Immediate of the load-value form: bits 0..24.
pub open spec fn immediate(word: u32) -> u32 {
    bits_of(word, 0, 25) as u32
}

/// What `word` means as an instruction.
pub open spec fn instruction_of(word: u32) -> Instruction {
    let op = opcode_of(word);
    let (a, b, c) = (reg_a(word), reg_b(word), reg_c(word));
    if op == 0 {
        Instruction::ConditionalMove { a, b, c }
    } else if op == 1 {
        Instruction::SegmentedLoad { a, b, c }
    } else if op == 2 {
        Instruction::SegmentedStore { a, b, c }
    } else if op == 3 {
        Instruction::Add { a, b, c }
    } else if op == 4 {
        Instruction::Multiply { a, b, c }
    } else if op == 5 {
        Instruction::Divide { a, b, c }
    } else if op == 6 {
        Instruction::NotAnd { a, b, c }
    } else if op == 7 {
        Instruction::Halt
    } else if op == 8 {
        Instruction::MapSegment { b, c }
    } else if op == 9 {
        Instruction::UnmapSegment { c }
    } else if op == 10 {
        Instruction::Output { c }
    } else if op == 11 {
        Instruction::Input { c }
    } else if op == 12 {
        Instruction::LoadProgram { b, c }
    } else if op == 13 {
        Instruction::LoadValue { a: reg_l(word), value: immediate(word) }
    } else {
        Instruction::Invalid { opcode: op as u32 }
    }
}

/// Every register field names one of the eight registers, and the immediate
/// has 25 bits.
pub proof fn lemma_fields_in_range(word: u32)
    ensures
        opcode_of(word) < 16,
        reg_a(word) < 8,
        reg_b(word) < 8,
        reg_c(word) < 8,
        reg_l(word) < 8,
        immediate(word) < 0x200_0000,
{
    lemma2_to64();
}

/// Decodes one instruction word.
pub fn decode(word: u32) -> (r: Instruction)
    ensures
        r == instruction_of(word),
{
    proof {
        lemma_fields_in_range(word);
    }
    let op = get(&Field { width: 4, lsb: 28 }, word);
    let a = get(&Field { width: 3, lsb: 6 }, word) as usize;
    let b = get(&Field { width: 3, lsb: 3 }, word) as usize;
    let c = get(&Field { width: 3, lsb: 0 }, word) as usize;
    match op {
        0 => Instruction::ConditionalMove { a, b, c },
        1 => Instruction::SegmentedLoad { a, b, c },
        2 => Instruction::SegmentedStore { a, b, c },
        3 => Instruction::Add { a, b, c },
        4 => Instruction::Multiply { a, b, c },
        5 => Instruction::Divide { a, b, c },
        6 => Instruction::NotAnd { a, b, c },
        7 => Instruction::Halt,
        8 => Instruction::MapSegment { b, c },
        9 => Instruction::UnmapSegment { c },
        10 => Instruction::Output { c },
        11 => Instruction::Input { c },
        12 => Instruction::LoadProgram { b, c },
        13 => {
            let l = get(&Field { width: 3, lsb: 25 }, word) as usize;
            let value = get(&Field { width: 25, lsb: 0 }, word);
            Instruction::LoadValue { a: l, value }
        },
        _ => Instruction::Invalid { opcode: op },
    }
}

} // verus!
