//! Error types of the codec.

use vstd::prelude::*;

verus! {

/// Why a token failed to decode as a priority.
#[derive(Clone, Copy, Debug, PartialEq, Eq, Structural)]
pub enum InvalidPriorityError {
    /// The token is not wrapped in `(` and `)`.
    MissingParens,
    /// The token is wrapped in parentheses, but its content is not a single
    /// uppercase letter.
    InvalidPriority,
}

impl InvalidPriorityError {
    /// A human-readable description of the error.
    pub fn message(&self) -> (r: &'static str)
        ensures
            *self == InvalidPriorityError::MissingParens ==> r@
                == "Missing one or both parenthesis in todo priority"@,
            *self == InvalidPriorityError::InvalidPriority ==> r@
                == "Invalid priority for todo priority"@,
    {
        match self {
            InvalidPriorityError::MissingParens => "Missing one or both parenthesis in todo priority",
            InvalidPriorityError::InvalidPriority => "Invalid priority for todo priority",
        }
    }
}

/// Why a line failed to parse as a todo record.
#[derive(Clone, Copy, Debug, PartialEq, Eq, Structural)]
pub enum TodoParseError {
    /// A date-shaped token does not form a valid calendar date, or a
    /// relative day offset is malformed or out of range.
    BadDate,
    /// A parenthesized token at the priority position has invalid content.
    BadPriority,
}

impl TodoParseError {
    /// A human-readable description of the error.
    pub fn message(&self) -> (r: &'static str)
        ensures
            *self == TodoParseError::BadDate ==> r@ == "BadDate"@,
            *self == TodoParseError::BadPriority ==> r@ == "BadPriority"@,
    {
        match self {
            TodoParseError::BadDate => "BadDate",
            TodoParseError::BadPriority => "BadPriority",
        }
    }
}

} // verus!
