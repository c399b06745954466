//! The error surfaced by an enumeration call.

use vstd::prelude::*;
use vstd::string::StringExecFns;

verus! {

/// Failure of an enumeration call.  The single variant covers every
/// acquisition failure at the operating-system boundary; the carried
/// string describes the failed call and its status code.
#[derive(Debug)]
pub enum Error {
    FailedToGetResource(String),
}

/// The message an [`Error`] renders to, as a sequence of characters.
pub open spec fn error_message(e: &Error) -> Seq<char> {
    match e {
        Error::FailedToGetResource(item) => "Could not get resource: "@ + item@,
    }
}

impl Error {
    /// Renders the error as a human-readable message.
    pub fn message(&self) -> (r: String)
        ensures
            r@ == error_message(self),
    {
        match self {
            Error::FailedToGetResource(item) => {
                String::from_str("Could not get resource: ").concat(item.as_str())
            },
        }
    }
}

} // verus!
