use vstd::prelude::*;

verus! {

/// The failure reported by an I/O capability.
///
/// Hosts implement the capability traits over arbitrary transports; any
/// failure of a read or write is surfaced to the engine as this value and
/// wrapped into [`Error::Io`].
#[derive(Debug, Copy, Clone, PartialEq, Eq, Structural)]
pub struct IoError;

/// The closed set of errors that evaluation can produce.
///
/// Every error is terminal for a run: the engine stops at the failing
/// instruction and performs no retry.
#[derive(Debug, Copy, Clone, PartialEq, Eq, Structural)]
pub enum Error {
    /// A backward jump scanned off the start of the program without finding
    /// its matching forward jump.
    BeginlessJumpBackward,
    /// A forward jump scanned off the end of the program without finding its
    /// matching backward jump.
    EndlessJumpForward,
    /// Self-eval found a cell value that is not the code of any instruction.
    InvalidCommand,
    /// Self-eval found its own code in the cell; direct self-recursion is
    /// refused.
    RecursiveEval,
    /// The cell value to be written as a character is not a Unicode scalar
    /// value.
    UnwritableChar,
    /// An I/O capability failed; the failure is wrapped, not swallowed.
    Io(IoError),
}

} // verus!
