//! The errors the library reports.

use vstd::prelude::*;
use crate::text::{chars_of, concat_chars, string_from_chars};

verus! {

/// What went wrong talking to the task tracker.
#[derive(Debug, PartialEq, Eq)]
pub enum Error {
    /// The backend refused or failed a request; the text says why.
    Backend(String),
}

/// The text an error is shown as.
pub open spec fn error_text(e: Error) -> Seq<char> {
    match e {
        Error::Backend(m) => "backend error: "@ + m@,
    }
}

impl Error {
    /// The text the error is shown as.
    pub fn message(&self) -> (r: String)
        ensures
            r@ == error_text(*self),
    {
        match self {
            Error::Backend(m) => string_from_chars(&concat_chars(&chars_of("backend error: "), &chars_of(m.as_str()))),
        }
    }
}

impl Clone for Error {
    fn clone(&self) -> (r: Self)
        ensures
            error_text(r) == error_text(*self),
    {
        match self {
            Error::Backend(m) => Error::Backend(m.clone()),
        }
    }
}

} // verus!
