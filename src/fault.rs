//! The conditions that stop the machine with failure.
use vstd::prelude::*;

verus! {

/// A fatal fault of the machine. Every fault ends execution.
#[derive(PartialEq, Eq, Structural, Clone, Copy, Debug)]
pub enum Fault {
    /// `Divide` with a zero divisor.
    DivisionByZero,
    /// `Output` of a value above 255.
    OutputTooLarge,
    /// A read or write past the end of a live segment.
    OutOfBounds,
    /// Use of an identifier that is not live (never mapped, or unmapped), or an
    /// attempt to unmap segment 0.
    InvalidSegment,
    /// The program counter points past the end of segment 0.
    ProgramCounterOutOfRange,
    /// An instruction word whose opcode is 14 or 15.
    UnknownOpcode,
    /// No segment identifier is left to hand out.
    IdentifiersExhausted,
}

} // verus!
