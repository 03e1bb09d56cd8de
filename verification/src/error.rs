//! The error of the library: a message for the person at the terminal.
use vstd::prelude::*;

verus! {

/// Why a request was refused or failed, in words, and what the system or a parser said to it, where
/// one of them did.
#[derive(Debug)]
pub struct Error {
    text: String,
    cause: Option<String>,
}

/// What an [`Error`] says.
#[verifier::ext_equal]
pub struct ErrorModel {
    pub text: Seq<char>,
    pub cause: Option<Seq<char>>,
}

impl ErrorModel {
    /// An error that has no other cause.
    pub open spec fn plain(text: Seq<char>) -> ErrorModel {
        ErrorModel { text, cause: None }
    }

    /// An error that comes from another one.
    pub open spec fn caused(text: Seq<char>, cause: Seq<char>) -> ErrorModel {
        ErrorModel { text, cause: Some(cause) }
    }
}

impl View for Error {
    type V = ErrorModel;

    closed spec fn view(&self) -> ErrorModel {
        ErrorModel { text: self.text@, cause: self.cause.deep_view() }
    }
}

impl Error {
    pub fn new(text: String) -> (r: Error)
        ensures
            r@ == ErrorModel::plain(text@),
    {
        Error { text, cause: None }
    }

    /// The same, for an error that comes from another one.
    pub fn caused_by(text: String, cause: String) -> (r: Error)
        ensures
            r@ == ErrorModel::caused(text@, cause@),
    {
        Error { text, cause: Some(cause) }
    }

    /// The words of the error.
    pub fn message(&self) -> (r: &str)
        ensures
            r@ == self@.text,
    {
        self.text.as_str()
    }

    /// What the error comes from, where it comes from another one.
    pub fn cause(&self) -> (r: Option<&str>)
        ensures
            r.deep_view() == self@.cause,
    {
        match &self.cause {
            Some(cause) => Some(cause.as_str()),
            None => None,
        }
    }
}

} // verus!
