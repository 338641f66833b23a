//! The typed failures the library returns, and the check a front end
//! applies to one line of operator input.

use crate::text::{trim_back, trim_trailing};
use vstd::prelude::*;

verus! {

/// Represents an error that occurred while processing input data.
#[derive(Debug)]
pub struct InputError {
    details: String,
}

impl InputError {
    /// The message the error carries.
    pub closed spec fn spec_details(&self) -> Seq<char> {
        self.details@
    }

    /// Creates a new `InputError` with the specified error message.
    pub fn new(msg: &str) -> (r: InputError)
        ensures
            r.spec_details() == msg@,
    {
        InputError { details: String::from_str(msg) }
    }

    /// The message the error carries, for a front end to render.
    pub fn details(&self) -> (r: &str)
        ensures
            r@ == self.spec_details(),
    {
        self.details.as_str()
    }
}

/// Checks one line of operator input: trailing whitespace is removed, and
/// an entry that is then empty is rejected with an `InputError`.
pub fn check_input(notes: &str) -> (r: Result<String, InputError>)
    ensures
        match r {
            Ok(t) => t@ == trim_back(notes@) && trim_back(notes@).len() > 0,
            Err(e) => trim_back(notes@).len() == 0 && e.spec_details() == "Some error occured:"@,
        },
{
    let t = trim_trailing(notes);
    if t.as_str().is_empty() {
        Err(InputError::new("Some error occured:"))
    } else {
        Ok(t)
    }
}

/// A required connection setting was absent after both the explicit argument
/// and the environment fallback failed to supply it.  The variant names the
/// first setting found missing.
#[derive(Debug, Clone, Copy, PartialEq, Eq, Structural)]
pub enum ConfigError {
    MissingUsername,
    MissingPassword,
    MissingHost,
}

/// The resolver's join matched no row: the label names no known connection.
/// Callers treat this as "no such connection", not as a system failure.
#[derive(Debug, Clone, Copy, PartialEq, Eq, Structural)]
pub struct NotFoundError;

} // verus!
