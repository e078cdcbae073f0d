//! The execution engine: program counter, registers and segment store, and a
//! step function that runs one instruction. Host input and output are left to
//! the caller: a step reports the byte to write, or the register that awaits a
//! byte of input.
use crate::decode::{decode, instruction_of, lemma_fields_in_range, Instruction};
use crate::fault::Fault;
use crate::memory::{Segments, SegmentsView};
use crate::ops;
use crate::ops::{not_and, word_add, word_mul};
use vstd::prelude::*;

verus! {

/// What the caller has to do after a step.
#[derive(PartialEq, Eq, Structural, Clone, Copy, Debug)]
pub enum Action {
    /// Nothing: run the next step.
    Continue,
    /// The machine has halted with success.
    Halt,
    /// Write this byte to the output, then run the next step.
    Output(u8),
    /// Read one byte of input and hand it to `receive_input` with this
    /// register, then run the next step.
    Input(usize),
}

/// The abstract state of a machine.
#[verifier::ext_equal]
pub struct MachineView {
    pub pc: u32,
    pub regs: Seq<u32>,
    pub mem: SegmentsView,
}

impl MachineView {
    /// The store is well formed, and there are eight registers.
    pub open spec fn wf(self) -> bool {
        &&& self.mem.wf()
        &&& self.regs.len() == 8
    }

    /// The instruction word at the program counter.
    pub open spec fn current_word(self) -> u32 {
        self.mem.segment(0)[self.pc as int]
    }
}

/// The outcome of one step from a given state.
pub enum Transition {
    /// The step succeeded: the new state, and what the caller has to do.
    Next(MachineView, Action),
    /// The step faulted.
    Stop(Fault),
}

/// The state with the program counter moved to the next instruction and the
/// registers and store replaced.
pub open spec fn advanced(s: MachineView, regs: Seq<u32>, mem: SegmentsView) -> MachineView {
    MachineView { pc: (s.pc + 1) as u32, regs, mem }
}

/// The operational semantics of the machine: what one step does from `s`.
pub open spec fn next(s: MachineView) -> Transition {
    let program = s.mem.segment(0);
    let r = s.regs;
    if s.pc >= program.len() {
        Transition::Stop(Fault::ProgramCounterOutOfRange)
    } else {
        match instruction_of(program[s.pc as int]) {
            Instruction::ConditionalMove { a, b, c } => Transition::Next(
                advanced(s, if r[c as int] != 0 { r.update(a as int, r[b as int]) } else { r }, s.mem),
                Action::Continue,
            ),
            Instruction::SegmentedLoad { a, b, c } => {
                let (id, offset) = (r[b as int] as int, r[c as int] as int);
                if s.mem.in_bounds(id, offset) {
                    Transition::Next(
                        advanced(s, r.update(a as int, s.mem.segment(id)[offset]), s.mem),
                        Action::Continue,
                    )
                } else if !s.mem.is_live(id) {
                    Transition::Stop(Fault::InvalidSegment)
                } else {
                    Transition::Stop(Fault::OutOfBounds)
                }
            },
            Instruction::SegmentedStore { a, b, c } => {
                let (id, offset) = (r[a as int] as int, r[b as int] as int);
                if s.mem.in_bounds(id, offset) {
                    Transition::Next(
                        advanced(s, r, s.mem.written(id, offset, r[c as int])),
                        Action::Continue,
                    )
                } else if !s.mem.is_live(id) {
                    Transition::Stop(Fault::InvalidSegment)
                } else {
                    Transition::Stop(Fault::OutOfBounds)
                }
            },
            Instruction::Add { a, b, c } => Transition::Next(
                advanced(s, r.update(a as int, word_add(r[b as int], r[c as int])), s.mem),
                Action::Continue,
            ),
            Instruction::Multiply { a, b, c } => Transition::Next(
                advanced(s, r.update(a as int, word_mul(r[b as int], r[c as int])), s.mem),
                Action::Continue,
            ),
            Instruction::Divide { a, b, c } => if r[c as int] == 0 {
                Transition::Stop(Fault::DivisionByZero)
            } else {
                Transition::Next(
                    advanced(s, r.update(a as int, (r[b as int] / r[c as int]) as u32), s.mem),
                    Action::Continue,
                )
            },
            Instruction::NotAnd { a, b, c } => Transition::Next(
                advanced(s, r.update(a as int, not_and(r[b as int], r[c as int])), s.mem),
                Action::Continue,
            ),
            Instruction::Halt => Transition::Next(s, Action::Halt),
            Instruction::MapSegment { b, c } => if s.mem.can_allocate() {
                Transition::Next(
                    advanced(
                        s,
                        r.update(b as int, s.mem.next_id() as u32),
                        s.mem.allocated(r[c as int] as nat),
                    ),
                    Action::Continue,
                )
            } else {
                Transition::Stop(Fault::IdentifiersExhausted)
            },
            Instruction::UnmapSegment { c } => {
                let id = r[c as int] as int;
                if id != 0 && s.mem.is_live(id) {
                    Transition::Next(advanced(s, r, s.mem.freed(id)), Action::Continue)
                } else {
                    Transition::Stop(Fault::InvalidSegment)
                }
            },
            Instruction::Output { c } => if r[c as int] <= 255 {
                Transition::Next(advanced(s, r, s.mem), Action::Output(r[c as int] as u8))
            } else {
                Transition::Stop(Fault::OutputTooLarge)
            },
            Instruction::Input { c } => Transition::Next(advanced(s, r, s.mem), Action::Input(c)),
            Instruction::LoadProgram { b, c } => {
                let id = r[b as int] as int;
                if s.mem.is_live(id) {
                    Transition::Next(
                        MachineView { pc: r[c as int], regs: r, mem: s.mem.program_loaded(id) },
                        Action::Continue,
                    )
                } else {
                    Transition::Stop(Fault::InvalidSegment)
                }
            },
            Instruction::LoadValue { a, value } => Transition::Next(
                advanced(s, r.update(a as int, value), s.mem),
                Action::Continue,
            ),
            Instruction::Invalid { opcode } => Transition::Stop(Fault::UnknownOpcode),
        }
    }
}

/// The register that receives a byte of input, or all ones at end of input.
pub open spec fn input_word(byte: Option<u8>) -> u32 {
    match byte {
        Some(b) => b as u32,
        None => 0xFFFF_FFFFu32,
    }
}

/// A Universal Machine.
pub struct Machine {
    pc: u32,
    registers: [u32; 8],
    memory: Segments,
}

impl View for Machine {
    type V = MachineView;

    closed spec fn view(&self) -> MachineView {
        MachineView { pc: self.pc, regs: self.registers@, mem: self.memory@ }
    }
}

impl Machine {
    /// The store is well formed, and there are eight registers.
    pub open spec fn wf(&self) -> bool {
        self@.wf()
    }

    /// A machine about to run `program`: program counter and registers zero,
    /// no segment but segment 0.
    pub fn new(program: Vec<u32>) -> (r: Machine)
        requires
            program.len() <= u32::MAX,
        ensures
            r.wf(),
            r@.pc == 0,
            r@.regs == Seq::new(8, |i: int| 0u32),
            r@.mem == (SegmentsView { slots: seq![Some(program@)], pool: seq![] }),
    {
        let r = Machine { pc: 0, registers: [0u32; 8], memory: Segments::new(program) };
        assert(r@.regs =~= Seq::new(8, |i: int| 0u32));
        r
    }

    /// The program counter.
    pub fn pc(&self) -> (r: u32)
        ensures
            r == self@.pc,
    {
        self.pc
    }

    /// The value of register `index`.
    pub fn register(&self, index: usize) -> (r: u32)
        requires
            index < 8,
        ensures
            r == self@.regs[index as int],
    {
        self.registers[index]
    }

    /// The segment store.
    pub fn memory(&self) -> (r: &Segments)
        ensures
            r@ == self@.mem,
    {
        &self.memory
    }

    /// Stores a byte of input, or all ones at end of input, in `register`.
    pub fn receive_input(&mut self, register: usize, byte: Option<u8>)
        requires
            old(self).wf(),
            register < 8,
        ensures
            final(self).wf(),
            final(self)@ == (MachineView {
                regs: old(self)@.regs.update(register as int, input_word(byte)),
                ..old(self)@
            }),
    {
        let value: u32 = match byte {
            Some(b) => b as u32,
            None => 0xFFFF_FFFFu32,
        };
        self.registers[register] = value;
        assert(self@ =~= (MachineView {
            regs: old(self)@.regs.update(register as int, input_word(byte)),
            ..old(self)@
        }));
    }

    /// Runs the instruction at the program counter.
    pub fn step(&mut self) -> (r: Result<Action, Fault>)
        requires
            old(self).wf(),
        ensures
            final(self).wf(),
            match next(old(self)@) {
                Transition::Next(s, action) => r == Ok::<Action, Fault>(action) && final(self)@ == s,
                Transition::Stop(fault) => r == Err::<Action, Fault>(fault),
            },
    {
        let ghost s = self@;
        let word = match self.memory.read(0, self.pc) {
            Ok(w) => w,
            Err(_) => {
                return Err(Fault::ProgramCounterOutOfRange);
            },
        };
        proof {
            lemma_fields_in_range(word);
        }
        let next_pc = self.pc + 1;
        let action = match decode(word) {
            Instruction::ConditionalMove { .. } => {
                ops::cmov(word, &mut self.registers);
                Action::Continue
            },
            Instruction::SegmentedLoad { .. } => {
                ops::load(word, &mut self.registers, &self.memory)?;
                Action::Continue
            },
            Instruction::SegmentedStore { .. } => {
                ops::store(word, &self.registers, &mut self.memory)?;
                Action::Continue
            },
            Instruction::Add { .. } => {
                ops::add(word, &mut self.registers);
                Action::Continue
            },
            Instruction::Multiply { .. } => {
                ops::mul(word, &mut self.registers);
                Action::Continue
            },
            Instruction::Divide { .. } => {
                ops::div(word, &mut self.registers)?;
                Action::Continue
            },
            Instruction::NotAnd { .. } => {
                ops::nand(word, &mut self.registers);
                Action::Continue
            },
            Instruction::Halt => {
                return Ok(Action::Halt);
            },
            Instruction::MapSegment { .. } => {
                ops::map(word, &mut self.registers, &mut self.memory)?;
                Action::Continue
            },
            Instruction::UnmapSegment { .. } => {
                ops::unmap(word, &self.registers, &mut self.memory)?;
                Action::Continue
            },
            Instruction::Output { .. } => {
                let byte = ops::output(word, &self.registers)?;
                Action::Output(byte)
            },
            Instruction::Input { c } => Action::Input(c),
            Instruction::LoadProgram { .. } => {
                ops::loadp(word, &self.registers, &mut self.memory, &mut self.pc)?;
                return Ok(Action::Continue);
            },
            Instruction::LoadValue { .. } => {
                ops::loadv(word, &mut self.registers);
                Action::Continue
            },
            Instruction::Invalid { .. } => {
                return Err(Fault::UnknownOpcode);
            },
        };
        self.pc = next_pc;
        Ok(action)
    }
}

} // verus!
