use vstd::prelude::*;

verus! {

/// Why a decode or a seek was refused.
#[derive(Clone, Copy, Debug, PartialEq, Eq, Structural)]
pub enum DecodeError {
    /// Fewer bytes are left than a fixed field or a name's terminator needs.
    Truncated,
    /// The header's four-byte tag is not valid UTF-8.
    InvalidEncoding,
    /// A seek would land before the start of the window, or beyond the
    /// largest position a signed 64-bit offset can name.
    InvalidSeek,
}

impl DecodeError {
    /// A short description of the error, for callers that print it.
    pub fn message(&self) -> (text: &'static str)
        ensures
            text@ == match *self {
                DecodeError::Truncated => "unexpected end of input"@,
                DecodeError::InvalidEncoding => "archive tag is not valid UTF-8"@,
                DecodeError::InvalidSeek => "cannot seek to that position"@,
            },
    {
        match self {
            DecodeError::Truncated => "unexpected end of input",
            DecodeError::InvalidEncoding => "archive tag is not valid UTF-8",
            DecodeError::InvalidSeek => "cannot seek to that position",
        }
    }
}

} // verus!
