//! The ways in which a decode can fail.
use vstd::prelude::*;

verus! {

/// Why a value could not be decoded.
#[derive(Clone, Copy, Debug, PartialEq, Eq, Structural)]
pub enum DecodeError {
    /// The read needs more bytes than remain between the cursor and the end
    /// of the buffer.
    UnexpectedEof,
    /// A word read as a boolean held this value, which is neither 0 nor 1.
    InvalidBoolean(u32),
    /// The bytes of a string are not valid UTF-8.
    InvalidEncoding,
}

/// The result of a decode: the value, or the reason there is none.
pub type XdrResult<T> = Result<T, DecodeError>;

impl DecodeError {
    /// A short description of the error, for messages and logs.
    pub fn message(&self) -> (text: &'static str)
        ensures
            text@ == (match *self {
                DecodeError::UnexpectedEof => "unexpected end of buffer"@,
                DecodeError::InvalidBoolean(_) => "boolean values must be 0 or 1"@,
                DecodeError::InvalidEncoding => "string is not valid UTF-8"@,
            }),
    {
        match self {
            DecodeError::UnexpectedEof => "unexpected end of buffer",
            DecodeError::InvalidBoolean(_) => "boolean values must be 0 or 1",
            DecodeError::InvalidEncoding => "string is not valid UTF-8",
        }
    }
}

} // verus!
