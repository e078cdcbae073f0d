use rum::fault::Fault;
use rum::machine::{Action, Machine};

fn op(code: u32, a: u32, b: u32, c: u32) -> u32 {
    (code << 28) | (a << 6) | (b << 3) | c
}

fn lv(a: u32, value: u32) -> u32 {
    (13 << 28) | (a << 25) | value
}

const HALT: u32 = 0x7000_0000;

/// Runs `program` with `input` until it halts or faults.
fn execute(program: Vec<u32>, input: &[u8]) -> (Machine, Vec<u8>, Result<(), Fault>) {
    let mut machine = Machine::new(program);
    let mut output = Vec::new();
    let mut read = 0;
    for _ in 0..100_000 {
        match machine.step() {
            Ok(Action::Continue) => {}
            Ok(Action::Halt) => return (machine, output, Ok(())),
            Ok(Action::Output(byte)) => output.push(byte),
            Ok(Action::Input(register)) => {
                let byte = input.get(read).copied();
                read += 1;
                machine.receive_input(register, byte);
            }
            Err(fault) => return (machine, output, Err(fault)),
        }
    }
    panic!("program did not stop");
}

#[test]
fn halt_alone() {
    let (m, out, r) = execute(vec![0x7000_0000], &[]);
    assert_eq!(r, Ok(()));
    assert!(out.is_empty());
    assert_eq!(m.pc(), 0);
}

#[test]
fn emit_a_then_halt() {
    let (_, out, r) = execute(vec![0xD200_0041, 0xA000_0001, 0x7000_0000], &[]);
    assert_eq!(r, Ok(()));
    assert_eq!(out, vec![0x41]);
}

#[test]
fn arithmetic_output_of_257_faults() {
    let program = vec![0xD000_00FF, 0xD200_0002, 0x3000_0081, 0xA000_0002, HALT];
    assert_eq!(program[2], op(3, 2, 0, 1));
    let (m, out, r) = execute(program, &[]);
    assert_eq!(m.register(2), 257);
    assert_eq!(r, Err(Fault::OutputTooLarge));
    assert!(out.is_empty());
}

#[test]
fn add_wraps_modulo_word() {
    // R0 = 0xFFFF_FFFF by not-and of zero with itself; R1 = 2.
    let program = vec![op(6, 0, 7, 7), lv(1, 2), op(3, 2, 0, 1), HALT];
    let (m, _, r) = execute(program, &[]);
    assert_eq!(r, Ok(()));
    assert_eq!(m.register(0), 0xFFFF_FFFF);
    assert_eq!(m.register(2), 1);
}

#[test]
fn multiply_wraps_modulo_word() {
    // R0 = 0x10000; R1 = 0x10000 * 0x10000 = 0 mod 2^32; R2 = 0x10000 * 3.
    let program = vec![lv(0, 0x1_0000), op(4, 1, 0, 0), lv(3, 3), op(4, 2, 0, 3), HALT];
    let (m, _, r) = execute(program, &[]);
    assert_eq!(r, Ok(()));
    assert_eq!(m.register(1), 0);
    assert_eq!(m.register(2), 0x3_0000);
}

#[test]
fn map_unmap_cycle_reuses_identifier() {
    let program = vec![
        lv(0, 3),
        op(8, 0, 1, 0),
        lv(3, 0xDEAD),
        lv(4, 0x1_0000),
        op(4, 3, 3, 4),
        lv(4, 0xBEEF),
        op(3, 3, 3, 4),
        lv(5, 0),
        op(2, 1, 5, 3),
        op(1, 2, 1, 5),
        op(9, 0, 0, 1),
        op(8, 0, 6, 0),
        op(1, 7, 6, 5),
        HALT,
    ];
    let (m, _, r) = execute(program, &[]);
    assert_eq!(r, Ok(()));
    assert_eq!(m.register(1), 1);
    assert_eq!(m.register(2), 0xDEAD_BEEF);
    assert_eq!(m.register(6), m.register(1));
    // The reissued segment is zero-filled again.
    assert_eq!(m.register(7), 0);
}

#[test]
fn self_modifying_jump() {
    let program = vec![
        lv(0, 2),
        op(8, 0, 1, 0),
        lv(3, 0xA000),
        lv(4, 0x1_0000),
        op(4, 3, 3, 4),
        lv(4, 2),
        op(3, 3, 3, 4),
        lv(5, 0),
        op(2, 1, 5, 3),
        lv(3, 0x7000),
        lv(4, 0x1_0000),
        op(4, 3, 3, 4),
        lv(5, 1),
        op(2, 1, 5, 3),
        lv(5, 0),
        lv(2, 0x5A),
        op(12, 0, 1, 5),
        HALT,
    ];
    let (m, out, r) = execute(program, &[]);
    assert_eq!(r, Ok(()));
    assert_eq!(out, vec![0x5A]);
    assert_eq!(m.pc(), 1);
    assert_eq!(m.memory().read(0, 0), Ok(0xA000_0002));
    assert_eq!(m.memory().read(0, 1), Ok(0x7000_0000));
    assert_eq!(m.memory().read(0, 2), Err(Fault::OutOfBounds));
}

#[test]
fn load_program_copy_is_independent_of_source() {
    // Copy segment 1 into segment 0, jump to its word 0, which overwrites the
    // source segment's word 1 and then runs word 1 of the copy.
    let program = vec![
        lv(0, 3),
        op(8, 0, 1, 0),
        // word 0 of the new program: store R3 at M[R1][R5]
        lv(3, 0x2000),
        lv(4, 0x1_0000),
        op(4, 3, 3, 4),
        lv(4, op(2, 1, 5, 3) & 0xFFFF),
        op(3, 3, 3, 4),
        lv(5, 0),
        op(2, 1, 5, 3),
        // word 1: halt
        lv(3, 0x7000),
        lv(4, 0x1_0000),
        op(4, 3, 3, 4),
        lv(5, 1),
        op(2, 1, 5, 3),
        // R3 = 0xA0000000 | 6: output R6, which the copy never runs
        lv(3, 0xA000),
        op(4, 3, 3, 4),
        lv(4, 6),
        op(3, 3, 3, 4),
        lv(6, 0x21),
        lv(7, 0),
        op(12, 0, 1, 7),
    ];
    let (m, out, r) = execute(program, &[]);
    assert_eq!(r, Ok(()));
    assert!(out.is_empty());
    assert_eq!(m.memory().read(1, 1), Ok(0xA000_0006));
    assert_eq!(m.memory().read(0, 1), Ok(0x7000_0000));
}

#[test]
fn end_of_input_gives_all_ones() {
    let (m, out, r) = execute(vec![op(11, 0, 0, 1), HALT], &[]);
    assert_eq!(r, Ok(()));
    assert!(out.is_empty());
    assert_eq!(m.register(1), 0xFFFF_FFFF);
}

#[test]
fn input_byte_is_stored_and_execution_continues() {
    let (m, out, r) = execute(vec![op(11, 0, 0, 1), op(11, 0, 0, 2), op(10, 0, 0, 1), HALT], &[0xC8]);
    assert_eq!(r, Ok(()));
    assert_eq!(m.register(1), 0xC8);
    assert_eq!(m.register(2), 0xFFFF_FFFF);
    assert_eq!(out, vec![0xC8]);
}

#[test]
fn output_zero_emits_nul() {
    let (_, out, r) = execute(vec![op(10, 0, 0, 3), HALT], &[]);
    assert_eq!(r, Ok(()));
    assert_eq!(out, vec![0]);
}

#[test]
fn output_255_emits_ff() {
    let (_, out, r) = execute(vec![lv(3, 255), op(10, 0, 0, 3), HALT], &[]);
    assert_eq!(r, Ok(()));
    assert_eq!(out, vec![0xFF]);
}

#[test]
fn output_256_faults() {
    let (_, out, r) = execute(vec![lv(3, 256), op(10, 0, 0, 3), HALT], &[]);
    assert_eq!(r, Err(Fault::OutputTooLarge));
    assert!(out.is_empty());
}

#[test]
fn divide_by_one_keeps_dividend() {
    let (m, _, r) = execute(vec![lv(1, 12345), lv(2, 1), op(5, 0, 1, 2), HALT], &[]);
    assert_eq!(r, Ok(()));
    assert_eq!(m.register(0), 12345);
}

#[test]
fn divide_is_unsigned_and_truncates() {
    let program = vec![op(6, 1, 7, 7), lv(2, 16), op(5, 0, 1, 2), lv(3, 7), lv(4, 2), op(5, 5, 3, 4), HALT];
    let (m, _, r) = execute(program, &[]);
    assert_eq!(r, Ok(()));
    assert_eq!(m.register(0), 0x0FFF_FFFF);
    assert_eq!(m.register(5), 3);
}

#[test]
fn divide_by_zero_faults() {
    let (_, _, r) = execute(vec![lv(1, 5), op(5, 0, 1, 2), HALT], &[]);
    assert_eq!(r, Err(Fault::DivisionByZero));
}

#[test]
fn not_and_with_itself_complements() {
    let program = vec![lv(1, 0x123_4567), op(6, 2, 1, 1), op(6, 3, 2, 2), lv(4, 0xF0F0), op(6, 5, 1, 4), HALT];
    let (m, _, r) = execute(program, &[]);
    assert_eq!(r, Ok(()));
    assert_eq!(m.register(2), !0x123_4567u32);
    assert_eq!(m.register(3), 0x123_4567);
    assert_eq!(m.register(5), 0xFFFF_FFFF ^ (0x123_4567 & 0xF0F0));
}

#[test]
fn load_value_twice_overwrites() {
    let (m, _, r) = execute(vec![lv(4, 0x1FF_FFFF), lv(4, 7), HALT], &[]);
    assert_eq!(r, Ok(()));
    assert_eq!(m.register(4), 7);
}

#[test]
fn conditional_move() {
    let program = vec![lv(1, 11), lv(2, 22), op(0, 0, 1, 3), lv(3, 1), op(0, 4, 2, 3), HALT];
    let (m, _, r) = execute(program, &[]);
    assert_eq!(r, Ok(()));
    assert_eq!(m.register(0), 0);
    assert_eq!(m.register(4), 22);
}

#[test]
fn empty_segment_access_faults() {
    let program = vec![op(8, 0, 1, 0), op(1, 2, 1, 0), HALT];
    let (m, _, r) = execute(program, &[]);
    assert_eq!(m.register(1), 1);
    assert!(m.memory().is_live(1));
    assert_eq!(r, Err(Fault::OutOfBounds));
    let program = vec![op(8, 0, 1, 0), op(2, 1, 0, 0), HALT];
    let (_, _, r) = execute(program, &[]);
    assert_eq!(r, Err(Fault::OutOfBounds));
}

#[test]
fn unmapped_segment_access_faults() {
    let program = vec![lv(0, 2), op(8, 0, 1, 0), op(9, 0, 0, 1), op(1, 2, 1, 3), HALT];
    let (m, _, r) = execute(program, &[]);
    assert!(!m.memory().is_live(1));
    assert_eq!(r, Err(Fault::InvalidSegment));
}

#[test]
fn never_mapped_segment_faults() {
    let (_, _, r) = execute(vec![lv(1, 9), op(2, 1, 0, 0), HALT], &[]);
    assert_eq!(r, Err(Fault::InvalidSegment));
    let (_, _, r) = execute(vec![lv(1, 9), op(12, 0, 1, 0), HALT], &[]);
    assert_eq!(r, Err(Fault::InvalidSegment));
}

#[test]
fn unmapping_segment_zero_faults() {
    let (_, _, r) = execute(vec![op(9, 0, 0, 0), HALT], &[]);
    assert_eq!(r, Err(Fault::InvalidSegment));
}

#[test]
fn identifiers_reused_most_recent_first() {
    let program = vec![
        lv(0, 1),
        op(8, 0, 1, 0),
        op(8, 0, 2, 0),
        op(8, 0, 3, 0),
        op(9, 0, 0, 1),
        op(9, 0, 0, 3),
        op(8, 0, 4, 0),
        op(8, 0, 5, 0),
        op(8, 0, 6, 0),
        HALT,
    ];
    let (m, _, r) = execute(program, &[]);
    assert_eq!(r, Ok(()));
    assert_eq!((m.register(1), m.register(2), m.register(3)), (1, 2, 3));
    assert_eq!((m.register(4), m.register(5), m.register(6)), (3, 1, 4));
}

#[test]
fn load_program_from_zero_only_jumps() {
    let program = vec![lv(1, 4), op(12, 0, 0, 1), lv(2, 0x41), op(10, 0, 0, 2), HALT];
    let (_, out, r) = execute(program, &[]);
    assert_eq!(r, Ok(()));
    assert!(out.is_empty());
}

#[test]
fn unknown_opcode_faults() {
    let (_, _, r) = execute(vec![0xE000_0000], &[]);
    assert_eq!(r, Err(Fault::UnknownOpcode));
    let (_, _, r) = execute(vec![0xF000_0000], &[]);
    assert_eq!(r, Err(Fault::UnknownOpcode));
}

#[test]
fn running_off_the_program_faults() {
    let (m, _, r) = execute(vec![lv(1, 1)], &[]);
    assert_eq!(m.pc(), 1);
    assert_eq!(r, Err(Fault::ProgramCounterOutOfRange));
}
