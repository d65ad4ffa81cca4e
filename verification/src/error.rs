//! Error taxonomy of the viewer: fatal argument errors before the loop
//! starts, and the non-fatal failures that are absorbed and displayed.
use vstd::prelude::*;

verus! {

/// An error of the viewer. `ParseError` is fatal at startup; `IoError`
/// (a failed command run) and `RegexError` (an invalid search pattern)
/// are absorbed into the display and never stop the main loop.
#[derive(Debug)]
pub enum RatchError {
    IoError(String),
    ParseError(String),
    RegexError(String),
}

impl RatchError {
    /// The human-readable message carried by the error.
    pub open spec fn spec_message(&self) -> Seq<char> {
        match self {
            RatchError::IoError(m) => m@,
            RatchError::ParseError(m) => m@,
            RatchError::RegexError(m) => m@,
        }
    }

    /// Returns the message carried by the error, for display.
    pub fn message(&self) -> (r: String)
        ensures
            r@ == self.spec_message(),
    {
        match self {
            RatchError::IoError(m) => m.clone(),
            RatchError::ParseError(m) => m.clone(),
            RatchError::RegexError(m) => m.clone(),
        }
    }
}

} // verus!
