//! The errors that display code reports.
use crate::text;
use vstd::prelude::*;

verus! {

/// `std::io::ErrorKind`, the kind of an error that a system call came back with. It is carried
/// through, and nothing is claimed of it.
#[verifier::external_type_specification]
#[verifier::external_body]
pub struct ExIoErrorKind(std::io::ErrorKind);

/// What an error is about.
#[derive(Clone, Copy, PartialEq, Eq, Debug)]
pub enum ErrorKind {
    NotFound,
    InvalidInput,
    BrokenPipe,
    Other,
    /// Whatever the system said.
    System(std::io::ErrorKind),
}

/// An error of a certain kind, with or without a message of its own.
#[derive(Debug)]
pub enum Error {
    Simple(ErrorKind),
    Custom { kind: ErrorKind, message: String },
}

impl Error {
    pub open spec fn spec_kind(self) -> ErrorKind {
        match self {
            Error::Simple(kind) => kind,
            Error::Custom { kind, .. } => kind,
        }
    }

    /// The error is of this kind and carries this message.
    pub open spec fn says(self, kind: ErrorKind, text: Seq<char>) -> bool {
        self matches Error::Custom { kind: k, message } && k == kind && message@ == text
    }

    pub fn kind(&self) -> (kind: ErrorKind)
        ensures
            kind == self.spec_kind(),
    {
        match self {
            Error::Simple(kind) => *kind,
            Error::Custom { kind, .. } => *kind,
        }
    }

    pub fn new(kind: ErrorKind, message: &str) -> (e: Error)
        ensures
            e.says(kind, message@),
    {
        Error::Custom { kind, message: message.to_owned() }
    }

    /// An error that says what was being done when `cause` came up.
    pub fn in_step(kind: ErrorKind, step: &str, cause: &str) -> (e: Error)
        ensures
            e.says(kind, step@ + ": "@ + cause@),
    {
        let start = text::join(step, ": ");
        Error::Custom { kind, message: text::join(start.as_str(), cause) }
    }
}

/// An error of no particular kind with the given message.
pub fn err(msg: &str) -> (e: Error)
    ensures
        e.says(ErrorKind::Other, msg@),
{
    Error::new(ErrorKind::Other, msg)
}

/// An error says one thing: the kind it has and the message it carries.
pub proof fn errors_say_one_thing(e: Error, kind: ErrorKind, text: Seq<char>)
    requires
        e.says(kind, text),
    ensures
        e.spec_kind() == kind,
        e matches Error::Custom { kind: k, message } && k == kind && message@ == text,
        Error::Simple(kind).spec_kind() == kind,
{
}

} // verus!
