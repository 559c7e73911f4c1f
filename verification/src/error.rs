//! Why a load, a construction or a query was refused.

use vstd::prelude::*;
use vstd::string::StringExecFns;

verus! {

/// The kinds of failure.
#[derive(Clone, Copy, Debug, PartialEq, Eq, Structural)]
pub enum SessionError {
    /// A table row has neither two nor three fields, or the table reader
    /// refused it.
    MalformedRow,
    /// A session text is no JSON array, or one of its elements lacks a `begin`
    /// or `end` string, or such a string is no `HH:MM:SS` time.
    MalformedSessionJson,
    /// A slice whose begin is not strictly before its end in the shifted domain.
    InvalidRange,
    /// No session is held for the product that was asked for.
    ProductNotFound,
}

impl SessionError {
    /// The failure in words.
    pub open spec fn message(self) -> Seq<char> {
        match self {
            SessionError::MalformedRow => "bad format session: expected 2 or 3 fields"@,
            SessionError::MalformedSessionJson => "trade session text must be an array of begin and end times"@,
            SessionError::InvalidRange => "SessionSlice: begin must less than end"@,
            SessionError::ProductNotFound => "session for product not found"@,
        }
    }

    /// The failure in words.
    pub fn to_string(&self) -> (res: String)
        ensures
            res@ == self.message(),
    {
        match self {
            SessionError::MalformedRow => String::from_str(
                "bad format session: expected 2 or 3 fields",
            ),
            SessionError::MalformedSessionJson => String::from_str(
                "trade session text must be an array of begin and end times",
            ),
            SessionError::InvalidRange => String::from_str("SessionSlice: begin must less than end"),
            SessionError::ProductNotFound => String::from_str("session for product not found"),
        }
    }
}

} // verus!
