//! Errors that cross the function boundary, and the text they carry.

use vstd::prelude::*;

verus! {

/// The category of an [`Error`].
#[derive(Clone, Copy, PartialEq, Eq, Structural, Debug)]
pub enum ErrorKind {
    ValueError,
    TypeError,
    RuntimeError,
    AttributeError,
}

pub const VALUE_ERROR: ErrorKind = ErrorKind::ValueError;

pub const TYPE_ERROR: ErrorKind = ErrorKind::TypeError;

pub const RUNTIME_ERROR: ErrorKind = ErrorKind::RuntimeError;

pub const ATTRIBUTE_ERROR: ErrorKind = ErrorKind::AttributeError;

impl ErrorKind {
    /// The name under which the category is registered.
    pub open spec fn name(self) -> Seq<char> {
        match self {
            ErrorKind::ValueError => "ValueError"@,
            ErrorKind::TypeError => "TypeError"@,
            ErrorKind::RuntimeError => "RuntimeError"@,
            ErrorKind::AttributeError => "AttributeError"@,
        }
    }

    pub fn as_str(self) -> (name: &'static str)
        ensures
            name@ == self.name(),
    {
        match self {
            ErrorKind::ValueError => "ValueError",
            ErrorKind::TypeError => "TypeError",
            ErrorKind::RuntimeError => "RuntimeError",
            ErrorKind::AttributeError => "AttributeError",
        }
    }
}

/// An error value: a category and a message.
#[derive(Debug)]
pub struct Error {
    pub kind: ErrorKind,
    pub message: String,
}

/// What an [`Error`] says.
pub struct ErrorView {
    pub kind: ErrorKind,
    pub message: Seq<char>,
}

impl View for Error {
    type V = ErrorView;

    open spec fn view(&self) -> ErrorView {
        ErrorView { kind: self.kind, message: self.message@ }
    }
}

impl Error {
    pub fn new(kind: ErrorKind, message: &str) -> (error: Error)
        ensures
            error@ == error_view(kind, message@),
    {
        Error { kind, message: message.to_owned() }
    }

    /// Takes ownership of an already formatted message.
    pub fn from_message(kind: ErrorKind, message: String) -> (error: Error)
        ensures
            error@ == error_view(kind, message@),
    {
        Error { kind, message }
    }

    pub fn kind(&self) -> (kind: ErrorKind)
        ensures
            kind == self@.kind,
    {
        self.kind
    }

    pub fn message(&self) -> (message: &str)
        ensures
            message@ == self@.message,
    {
        self.message.as_str()
    }

    pub fn copy(&self) -> (error: Error)
        ensures
            error@ == self@,
    {
        Error { kind: self.kind, message: self.message.clone() }
    }
}

pub open spec fn error_view(kind: ErrorKind, message: Seq<char>) -> ErrorView {
    ErrorView { kind, message }
}

/// The outcome of a fallible call, with the error seen through its view.
pub open spec fn outcome<T>(result: Result<T, Error>) -> Result<T, ErrorView> {
    match result {
        Ok(value) => Ok(value),
        Err(error) => Err(error@),
    }
}

} // verus!
