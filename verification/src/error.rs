//! What can go wrong, as the user is told.

use vstd::prelude::*;

verus! {

/// A failure with the message that the user sees.
#[derive(Debug)]
pub enum StatuslineError {
    /// Something in the configuration, or on the command line, is not acceptable.
    Config(String),
    /// Any other failure.
    Other(String),
}

pub type Result<T> = core::result::Result<T, StatuslineError>;

impl StatuslineError {
    /// The text of the message.
    pub open spec fn text(self) -> Seq<char> {
        match self {
            StatuslineError::Config(m) => m@,
            StatuslineError::Other(m) => m@,
        }
    }

    /// A failure of the general kind.
    pub fn other(message: &str) -> (r: StatuslineError)
        ensures
            r is Other,
            r.text() == message@,
    {
        StatuslineError::Other(message.to_owned())
    }

    /// A failure of the configuration kind.
    pub fn config(message: &str) -> (r: StatuslineError)
        ensures
            r is Config,
            r.text() == message@,
    {
        StatuslineError::Config(message.to_owned())
    }

    /// The message.
    pub fn message(&self) -> (r: &str)
        ensures
            r@ == self.text(),
    {
        match self {
            StatuslineError::Config(m) => m.as_str(),
            StatuslineError::Other(m) => m.as_str(),
        }
    }
}

/// Whether a result is a failure of the general kind with the given message.
pub open spec fn failed_with<T>(r: Result<T>, message: Seq<char>) -> bool {
    match r {
        Ok(_) => false,
        Err(e) => e is Other && e.text() == message,
    }
}

/// Whether a result is a failure of the configuration kind with the given message.
pub open spec fn refused_with<T>(r: Result<T>, message: Seq<char>) -> bool {
    match r {
        Ok(_) => false,
        Err(e) => e is Config && e.text() == message,
    }
}

} // verus!
