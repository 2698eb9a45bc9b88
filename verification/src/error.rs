//! The errors that the actions of this crate answer with.

use vstd::prelude::*;

verus! {

/// The class of an [`Error`].
#[derive(Clone, Copy, Debug, PartialEq, Eq, Structural)]
pub enum ErrorKind {
    /// The caller handed over data that cannot be committed.
    DataInvalid,
    /// The request does not meet a condition that the commit relies on.
    PreconditionFailed,
    /// The environment failed: storage, catalog or network.
    Unexpected,
}

/// An error: its class and a message for people.
#[derive(Clone, Debug, PartialEq, Eq)]
pub struct Error {
    pub kind: ErrorKind,
    pub message: String,
}

impl Error {
    /// An error of class `kind` with the given message.
    pub fn new(kind: ErrorKind, message: &str) -> (error: Error)
        ensures
            error.kind == kind,
            error.message@ == message@,
    {
        Error { kind, message: message.to_owned() }
    }

    /// The message.
    pub fn message(&self) -> (message: &str)
        ensures
            message@ == self.message@,
    {
        self.message.as_str()
    }
}

} // verus!
