use vstd::prelude::*;

verus! {

/// std::io::Error, the error type of the IO boundary: carried through
/// unopened inside `ChipError::Io`.
#[verifier::external_type_specification]
#[verifier::external_body]
pub struct ExIoError(std::io::Error);

/// Why the machine stopped. Every error is fatal to the run.
#[derive(Debug)]
pub enum ChipError {
    /// The word does not encode any instruction.
    Decode(u16),
    /// A call across the IO boundary failed.
    Io(std::io::Error),
    /// A return was executed with an empty call stack.
    StackUnderflow,
    /// An instruction fetch or a memory operand lies outside memory.
    AddressOutOfRange,
    /// A key number outside the keypad.
    KeyOutOfRange(usize),
    /// The settings cannot drive a run: no instruction per tick, or a zero
    /// tick rate.
    InvalidConfig,
    /// The program does not fit in memory above the load address.
    ProgramTooLarge(usize),
}

} // verus!
