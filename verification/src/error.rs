//! Errors that stand for a failure of the host: a kind and a text.
use vstd::prelude::*;

verus! {

/// The kind of a failure.
#[derive(Debug, Clone, Copy, PartialEq, Eq, Structural)]
pub enum ErrorKind {
    AlreadyExists,
    Interrupted,
    InvalidData,
    InvalidInput,
    NotFound,
    PermissionDenied,
    TimedOut,
    Unsupported,
    WouldBlock,
    Other,
}

/// A failure with its text.
#[derive(Debug, Clone, PartialEq, Eq)]
pub struct Error {
    pub kind: ErrorKind,
    pub message: String,
}

/// A failure as a mathematical value.
pub struct ErrorView {
    pub kind: ErrorKind,
    pub message: Seq<char>,
}

impl View for Error {
    type V = ErrorView;

    open spec fn view(&self) -> ErrorView {
        ErrorView { kind: self.kind, message: self.message@ }
    }
}

impl Error {
    /// A failure of the given kind and text.
    pub fn new(kind: ErrorKind, message: &str) -> (e: Self)
        ensures
            e@ == (ErrorView { kind, message: message@ }),
    {
        Error { kind, message: message.to_owned() }
    }

    /// The same failure once more.
    pub fn copy(&self) -> (e: Self)
        ensures
            e@ == self@,
    {
        Error { kind: self.kind, message: self.message.clone() }
    }
}

/// The outcome of something that gives a text, as a mathematical value.
pub open spec fn text_outcome(r: Result<String, Error>) -> Result<Seq<char>, ErrorView> {
    match r {
        Ok(s) => Ok(s@),
        Err(e) => Err(e@),
    }
}

} // verus!
