use vstd::prelude::*;
use crate::error::IoError;
use vstd::utf8::is_scalar;

verus! {

/// Relies on `char::from_u32`: it returns `Some` exactly when the argument
/// is a Unicode scalar value — at most 0x10FFFF and not in the surrogate
/// range 0xD800 through 0xDFFF — and the returned character then has exactly
/// that code.
#[verifier::external_body]
pub(crate) fn char_from_u32(value: u32) -> (r: Option<char>)
    ensures
        r is Some <==> is_scalar(value),
        r is Some ==> r.unwrap() as u32 == value,
{
    char::from_u32(value)
}

/// A value source supplied by the host: the engine's only way to read.
///
/// Implementations may block for as long as they like; the engine imposes no
/// timeout and treats any failure as terminal for the run. Nothing is assumed
/// about the values an implementation produces: the engine's contracts hold
/// for every possible answer.
pub trait Input {
    /// Read one integer.
    fn input_int(&mut self) -> Result<u32, IoError>;

    /// Read one character.
    fn input_char(&mut self) -> Result<char, IoError>;
}

/// A value sink supplied by the host: the engine's only way to write.
///
/// As with [`Input`], implementations may block, and any failure is terminal
/// for the run.
pub trait Output {
    /// Write one integer.
    fn output_int(&mut self, value: u32) -> Result<(), IoError>;

    /// Write one character.
    fn output_char(&mut self, c: char) -> Result<(), IoError>;
}

} // verus!
