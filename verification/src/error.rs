//! The errors of a styled write.

use vstd::prelude::*;

verus! {

/// Why a styled write failed. Each variant holds the message of what went wrong.
#[derive(Debug)]
pub enum Error {
    /// The target could not be written to.
    StdIO(String),
    /// The terminal refused an attribute, or styling could not be negotiated with it.
    Term(String),
    /// Anything else.
    Other(String),
}

impl Error {
    /// The message of the error, as a sequence of characters: a prefix that names the
    /// variant, then what the variant holds.
    pub open spec fn message_spec(self) -> Seq<char> {
        match self {
            Error::StdIO(e) => "IO Error: "@ + e@,
            Error::Term(e) => "Term Error: "@ + e@,
            Error::Other(e) => "Error: "@ + e@,
        }
    }

    /// The message of the error: a prefix that names the variant, then what the variant
    /// holds.
    pub fn message(&self) -> (r: String)
        ensures
            r@ == self.message_spec(),
    {
        match self {
            Error::StdIO(e) => String::from_str("IO Error: ").concat(e.as_str()),
            Error::Term(e) => String::from_str("Term Error: ").concat(e.as_str()),
            Error::Other(e) => String::from_str("Error: ").concat(e.as_str()),
        }
    }
}

impl<'a> From<&'a str> for Error {
    /// The error of the last variant, with `e` as its message.
    fn from(e: &'a str) -> (r: Error)
        ensures
            r matches Error::Other(m) && m@ == e@,
    {
        Error::Other(String::from_str(e))
    }
}

impl<'a> vstd::std_specs::convert::FromSpecImpl<&'a str> for Error {
    /// A message is known by its characters alone: nothing is said of the error by a
    /// value.
    open spec fn obeys_from_spec() -> bool {
        false
    }

    open spec fn from_spec(e: &'a str) -> Error {
        arbitrary()
    }
}

} // verus!
