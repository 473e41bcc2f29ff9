//! What a step reports: its ordinary outcome, or the fault that ends the run.
use vstd::prelude::*;

verus! {

/// Why a ROM image cannot be loaded.
#[derive(Clone, Copy, Debug, PartialEq, Eq, Structural)]
pub enum LoadError {
    /// The image does not fit between the program start and the end of
    /// memory.
    RomTooLarge,
}

/// The reason for which an instruction cannot be carried out.
#[derive(Clone, Copy, Debug, PartialEq, Eq, Structural)]
pub enum FaultKind {
    /// A call with sixteen return addresses already on the stack.
    StackOverflow,
    /// A return with no return address on the stack.
    StackUnderflow,
    /// The program counter does not leave room for a two-byte word inside
    /// memory.
    FetchOutOfBounds,
    /// A draw, a decimal store or a register transfer would touch an address
    /// beyond the end of memory.
    MemoryOutOfBounds,
    /// A key test on a register that holds no key index (a value above 15).
    KeyOutOfRange,
    /// A glyph lookup on a register that holds no hexadecimal digit (a value
    /// above 15).
    DigitOutOfRange,
}

/// A fatal error: the emulation cannot go on.
#[derive(Clone, Copy, Debug, PartialEq, Eq, Structural)]
pub struct Fault {
    /// What went wrong.
    pub kind: FaultKind,
    /// The offending instruction word; 0 for a fetch fault, where no word
    /// was read.
    pub opcode: u16,
    /// The address the offending word was, or would have been, fetched from.
    pub pc: u16,
}

/// What a step that did not fault has done.
#[derive(Clone, Copy, Debug, PartialEq, Eq, Structural)]
pub enum Step {
    /// An instruction was fetched and executed.
    Executed,
    /// The fetched word is no instruction. The program counter has moved
    /// past it and nothing else has changed.
    Unsupported(u16),
    /// The machine was waiting for a key. No instruction was fetched.
    KeyWait,
}

} // verus!
