use vstd::prelude::*;

use crate::numbers::{dec_str, usize_to_decimal};

verus! {

/// A failure while reading OBJ or MTL text.
///
/// Every error aborts the parse that raised it; there is no partial result.
#[derive(Debug, Clone, PartialEq, Eq)]
pub enum Error {
    /// A directive carried fewer argument tokens than it needs.
    NotEnoughData { found: usize, expected: usize },
    /// A face token is structurally malformed (an empty vertex field), or it
    /// references data outside the group that is currently being accumulated.
    InvalidFaceVertex,
    /// A face token holds a zero or negative source index; the format counts
    /// from one.
    InvalidIndex,
    /// The named path could not be resolved to material text.
    PathNotFound(String),
    /// The byte stream behind the parse failed; carries the message of the
    /// underlying failure.
    IoError(String),
    /// A token was present but could not be converted to the requested kind
    /// of value.
    ParseError,
}

/// The text that describes `e`.
pub open spec fn message_of(e: Error) -> Seq<char> {
    match e {
        Error::NotEnoughData { found, expected } => "Not enough data (found "@ + dec_str(
            found as int,
        ) + ", expected "@ + dec_str(expected as int) + ")"@,
        Error::InvalidFaceVertex => "Invalid face vertex definition"@,
        Error::InvalidIndex => "Invalid index definition"@,
        Error::PathNotFound(p) => "Path not found: \""@ + p@ + "\""@,
        Error::IoError(m) => m@,
        Error::ParseError => "Failed to parse a value"@,
    }
}

impl Error {
    /// A human-readable description of this error.
    pub fn message(&self) -> (r: String)
        ensures
            r@ == message_of(*self),
    {
        match self {
            Error::NotEnoughData { found, expected } => {
                let mut s = String::from_str("Not enough data (found ");
                let found_str = usize_to_decimal(*found);
                s.append(found_str.as_str());
                s.append(", expected ");
                let expected_str = usize_to_decimal(*expected);
                s.append(expected_str.as_str());
                s.append(")");
                proof {
                    assert(s@ =~= message_of(*self));
                }
                s
            },
            Error::InvalidFaceVertex => String::from_str("Invalid face vertex definition"),
            Error::InvalidIndex => String::from_str("Invalid index definition"),
            Error::PathNotFound(p) => {
                let mut s = String::from_str("Path not found: \"");
                s.append(p.as_str());
                s.append("\"");
                proof {
                    assert(s@ =~= message_of(*self));
                }
                s
            },
            Error::IoError(m) => m.clone(),
            Error::ParseError => String::from_str("Failed to parse a value"),
        }
    }
}

} // verus!
