//! The error type of the crate.
use vstd::prelude::*;

verus! {

/// What can go wrong. Each variant carries its message.
#[derive(Debug, PartialEq)]
pub enum Error {
    /// Configuration files and model selection.
    Config(String),
    /// Resolving an API key.
    Key(String),
    /// Talking to a model provider or an MCP server.
    Provider(String),
    /// Running a tool.
    Tool(String),
    /// The file system.
    Io(String),
    /// Malformed JSON.
    Json(String),
}

/// The model of an [`Error`].
#[verifier::ext_equal]
pub enum ErrorModel {
    Config(Seq<char>),
    Key(Seq<char>),
    Provider(Seq<char>),
    Tool(Seq<char>),
    Io(Seq<char>),
    Json(Seq<char>),
}

impl ErrorModel {
    pub open spec fn message(self) -> Seq<char> {
        match self {
            ErrorModel::Config(s) => s,
            ErrorModel::Key(s) => s,
            ErrorModel::Provider(s) => s,
            ErrorModel::Tool(s) => s,
            ErrorModel::Io(s) => s,
            ErrorModel::Json(s) => s,
        }
    }
}

impl View for Error {
    type V = ErrorModel;

    open spec fn view(&self) -> ErrorModel {
        match *self {
            Error::Config(s) => ErrorModel::Config(s@),
            Error::Key(s) => ErrorModel::Key(s@),
            Error::Provider(s) => ErrorModel::Provider(s@),
            Error::Tool(s) => ErrorModel::Tool(s@),
            Error::Io(s) => ErrorModel::Io(s@),
            Error::Json(s) => ErrorModel::Json(s@),
        }
    }
}

impl Error {
    /// The message, for people and for the model.
    pub fn message(&self) -> (r: &str)
        ensures
            r@ == self@.message(),
    {
        match self {
            Error::Config(s) => s.as_str(),
            Error::Key(s) => s.as_str(),
            Error::Provider(s) => s.as_str(),
            Error::Tool(s) => s.as_str(),
            Error::Io(s) => s.as_str(),
            Error::Json(s) => s.as_str(),
        }
    }
}

/// The model of a result.
pub open spec fn outcome<T: View>(r: Result<T, Error>) -> Result<T::V, ErrorModel> {
    match r {
        Ok(v) => Ok(v@),
        Err(e) => Err(e@),
    }
}

} // verus!
