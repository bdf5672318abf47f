use vstd::prelude::*;

verus! {

/// The ways a running program can fail. Each ends the run.
#[derive(Debug, Copy, Clone, PartialEq, Eq, Structural)]
pub enum ErrorKind {
    /// `mOO` met its own code in the cell.
    InfiniteLoop,
    /// `mOO` met a cell that holds no code.
    InvalidCode,
    /// `Moo` read a byte that is not ASCII.
    NotAscii,
    /// `oom` read a line that is no number of 32 bits.
    NotInteger,
    /// The pointer was to leave the memory.
    OverFlow,
    /// `moo` found no `MOO` before it.
    UnmatchedBeginLoop,
    /// `MOO` found no `moo` behind it.
    UnmatchedEndLoop,
}

impl ErrorKind {
    /// The message that describes this failure.
    pub open spec fn message(self) -> Seq<char> {
        match self {
            Self::InfiniteLoop => "Code 3 (`mOO`) can't execute itself as it would cause an infinite loop"@,
            Self::InvalidCode => "Code values must be between 0 and 11"@,
            Self::NotAscii => "Expect ASCII charactors but given invalid value"@,
            Self::NotInteger => "Expect 32-bit signed integer but given invalid value"@,
            Self::OverFlow => "Current memory value has overflowed"@,
            Self::UnmatchedBeginLoop => "No matching `MOO` before this `moo`"@,
            Self::UnmatchedEndLoop => "No matching `moo` after this `MOO`"@,
        }
    }

    /// The message that describes this failure. There is one for every
    /// failure.
    pub fn as_str(self) -> (text: Option<&'static str>)
        ensures
            text matches Some(s) && s@ == self.message(),
    {
        match self {
            Self::InfiniteLoop => {
                Some("Code 3 (`mOO`) can't execute itself as it would cause an infinite loop")
            },
            Self::InvalidCode => Some("Code values must be between 0 and 11"),
            Self::NotAscii => Some("Expect ASCII charactors but given invalid value"),
            Self::NotInteger => Some("Expect 32-bit signed integer but given invalid value"),
            Self::OverFlow => Some("Current memory value has overflowed"),
            Self::UnmatchedBeginLoop => Some("No matching `MOO` before this `moo`"),
            Self::UnmatchedEndLoop => Some("No matching `moo` after this `MOO`"),
        }
    }
}

} // verus!
