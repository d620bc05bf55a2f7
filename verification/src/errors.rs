use vstd::prelude::*;

verus! {

/// The ways a machine operation can fail. Every failure is fatal to the
/// running program: the engine reports it instead of continuing with
/// undefined state, and leaves the machine untouched.
#[derive(Clone, Copy, Debug, PartialEq, Eq, Structural)]
pub enum Chip8Error {
    /// The fetched instruction word matches no documented instruction.
    InvalidOpcode(u16),
    /// A call was attempted with all sixteen stack slots in use.
    StackOverflow,
    /// A return was attempted with an empty call stack.
    StackUnderflow,
    /// An instruction would touch memory or the key array outside their
    /// fixed bounds.
    AddressOutOfRange,
    /// The program image does not fit between the program origin and the
    /// end of memory.
    RomTooLarge,
}

/// What one step of the engine reports back to the caller.
#[derive(Clone, Copy, Debug, PartialEq, Eq, Structural)]
pub struct StepOutcome {
    /// Whether the fetched instruction retired. It is `false` only while a
    /// wait-for-key instruction is parked on an idle keypad.
    pub retired: bool,
    /// Whether the sound timer was running this step; the caller should play
    /// a tone for as long as consecutive steps report `true`.
    pub beep: bool,
}

/// The two points where historical implementations of this instruction set
/// diverge. Real programs depend on either choice, so both are exposed.
#[derive(Clone, Copy, Debug, PartialEq, Eq, Structural)]
pub struct Quirks {
    /// Shift instructions read register y (the older behaviour) rather than
    /// register x (the common modern one).
    pub shift_reads_vy: bool,
    /// Bulk register store/load advance the index register past the touched
    /// region (the older behaviour) rather than leaving it unchanged.
    pub index_advances: bool,
}

} // verus!
