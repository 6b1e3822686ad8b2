//! Error types: failures of request handlers, and malformed route
//! specifications found while a router is being configured.

use vstd::prelude::*;
use vstd::string::StringExecFns;

verus! {

/// The result of an operation that may fail with an [`Error`].
pub type Result<T> = core::result::Result<T, Error>;

/// A failure reported by a request handler.
///
/// Both variants carry the human-readable text that is shown to the client.
#[derive(Debug)]
pub enum Error {
    /// A resource could not be read.
    Io(String),
    /// Any other failure.
    Other(String),
}

/// What an [`Error`] is, with its text as a sequence of characters.
pub enum ErrorModel {
    Io(Seq<char>),
    Other(Seq<char>),
}

impl ErrorModel {
    /// The text that the error carries.
    pub open spec fn text(self) -> Seq<char> {
        match self {
            ErrorModel::Io(text) => text,
            ErrorModel::Other(text) => text,
        }
    }
}

impl View for Error {
    type V = ErrorModel;

    open spec fn view(&self) -> ErrorModel {
        match self {
            Error::Io(text) => ErrorModel::Io(text@),
            Error::Other(text) => ErrorModel::Other(text@),
        }
    }
}

impl Error {
    /// A short description of the failure: the text of its cause.
    pub fn description(&self) -> (text: &str)
        ensures
            text@ == self@.text(),
    {
        match self {
            Error::Io(cause) => cause.as_str(),
            Error::Other(cause) => cause.as_str(),
        }
    }

    /// The text to display for this error.
    pub fn to_string(&self) -> (text: String)
        ensures
            text@ == self@.text(),
    {
        String::from_str(self.description())
    }
}

/// A malformed route specification, found when the route is registered.
#[derive(Debug)]
pub enum RouteSpecError {
    /// Two variables of one specification share the name held here.
    DuplicateVariable(String),
}

/// What a [`RouteSpecError`] is, with its text as a sequence of characters.
pub enum RouteSpecErrorModel {
    DuplicateVariable(Seq<char>),
}

impl RouteSpecErrorModel {
    /// The name of the variable at fault.
    pub open spec fn name(self) -> Seq<char> {
        match self {
            RouteSpecErrorModel::DuplicateVariable(name) => name,
        }
    }
}

/// What the text of a [`RouteSpecError::DuplicateVariable`] starts with.
pub open spec fn duplicate_variable_text() -> Seq<char> {
    "Multiple variables with the same name: "@
}

impl View for RouteSpecError {
    type V = RouteSpecErrorModel;

    open spec fn view(&self) -> RouteSpecErrorModel {
        match self {
            RouteSpecError::DuplicateVariable(name) => RouteSpecErrorModel::DuplicateVariable(name@),
        }
    }
}

impl RouteSpecError {
    /// The text to display for this error: what is wrong, and the name of
    /// the variable.
    pub fn to_string(&self) -> (text: String)
        ensures
            text@ == duplicate_variable_text() + self@.name(),
    {
        let mut text = String::from_str("Multiple variables with the same name: ");
        text.append(self.variable());
        text
    }

    /// The name of the variable that the specification declares twice.
    pub fn variable(&self) -> (name: &str)
        ensures
            self@ == RouteSpecErrorModel::DuplicateVariable(name@),
    {
        match self {
            RouteSpecError::DuplicateVariable(name) => name.as_str(),
        }
    }
}

} // verus!
