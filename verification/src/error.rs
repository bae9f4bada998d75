//! Errors of the tool's own logic.

use vstd::prelude::*;
use vstd::string::*;

verus! {

/// What can go wrong besides input and output.
#[derive(Debug)]
pub enum Error {
    /// The configuration does not fit
    Config(String),
    /// The other side does not keep to the protocol
    Protocol(String),
}

impl Error {
    /// The text of the error.
    pub fn text(&self) -> (r: &str)
        ensures
            r@ == match self {
                Error::Config(text) => text@,
                Error::Protocol(text) => text@,
            },
    {
        match self {
            Error::Config(text) => text.as_str(),
            Error::Protocol(text) => text.as_str(),
        }
    }
}

} // verus!
