//! The crate's error taxonomy. Every failure a resolver, registry, history
//! or executor operation can report is one of these variants; contracts
//! speak of them through the ghost `ErrorModel`.

use vstd::prelude::*;

verus! {

#[derive(Debug, Clone, PartialEq, Eq)]
pub enum SpagError {
    /// No environment is marked active.
    NoActiveEnvironment,
    /// A named environment does not exist.
    EnvironmentNotFound(String),
    /// A template fails well-formedness, or a loaded document lacks a
    /// required key.
    MalformedTemplate,
    /// A placeholder names a variable the active environment lacks.
    UnresolvedVariable(String),
    /// A raw header string has no colon, or an empty name.
    MalformedHeader(String),
    /// Neither the intent nor the environment supplies an endpoint.
    NoEndpoint,
    /// A history index is at or past the end of the log.
    IndexOutOfRange(usize),
    /// The transport failed to connect, send, or receive in time.
    TransportError(String),
    /// The remote answered with something that is not a valid response.
    ProtocolError(String),
    /// The underlying document is missing, unreadable, or unwritable.
    DocumentIOError(String),
}

pub ghost enum ErrorModel {
    NoActiveEnvironment,
    EnvironmentNotFound(Seq<char>),
    MalformedTemplate,
    UnresolvedVariable(Seq<char>),
    MalformedHeader(Seq<char>),
    NoEndpoint,
    IndexOutOfRange(usize),
    TransportError(Seq<char>),
    ProtocolError(Seq<char>),
    DocumentIOError(Seq<char>),
}

impl View for SpagError {
    type V = ErrorModel;

    open spec fn view(&self) -> ErrorModel {
        match self {
            SpagError::NoActiveEnvironment => ErrorModel::NoActiveEnvironment,
            SpagError::EnvironmentNotFound(n) => ErrorModel::EnvironmentNotFound(n@),
            SpagError::MalformedTemplate => ErrorModel::MalformedTemplate,
            SpagError::UnresolvedVariable(n) => ErrorModel::UnresolvedVariable(n@),
            SpagError::MalformedHeader(h) => ErrorModel::MalformedHeader(h@),
            SpagError::NoEndpoint => ErrorModel::NoEndpoint,
            SpagError::IndexOutOfRange(i) => ErrorModel::IndexOutOfRange(*i),
            SpagError::TransportError(d) => ErrorModel::TransportError(d@),
            SpagError::ProtocolError(d) => ErrorModel::ProtocolError(d@),
            SpagError::DocumentIOError(d) => ErrorModel::DocumentIOError(d@),
        }
    }
}

impl SpagError {
    /// A single-line, human-readable account of the error, for the error
    /// stream of the command-line layer.
    pub fn message(&self) -> String {
        match self {
            SpagError::NoActiveEnvironment => {
                let mut m = String::new();
                m.append("no active environment");
                m
            },
            SpagError::EnvironmentNotFound(n) => {
                let mut m = String::new();
                m.append("environment not found: ");
                m.append(n.as_str());
                m
            },
            SpagError::MalformedTemplate => {
                let mut m = String::new();
                m.append("malformed request template");
                m
            },
            SpagError::UnresolvedVariable(n) => {
                let mut m = String::new();
                m.append("unresolved variable: ");
                m.append(n.as_str());
                m
            },
            SpagError::MalformedHeader(h) => {
                let mut m = String::new();
                m.append("malformed header: ");
                m.append(h.as_str());
                m
            },
            SpagError::NoEndpoint => {
                let mut m = String::new();
                m.append("no endpoint given and none set in the environment");
                m
            },
            SpagError::IndexOutOfRange(_) => {
                let mut m = String::new();
                m.append("history index out of range");
                m
            },
            SpagError::TransportError(d) => {
                let mut m = String::new();
                m.append("transport error: ");
                m.append(d.as_str());
                m
            },
            SpagError::ProtocolError(d) => {
                let mut m = String::new();
                m.append("protocol error: ");
                m.append(d.as_str());
                m
            },
            SpagError::DocumentIOError(d) => {
                let mut m = String::new();
                m.append("document error: ");
                m.append(d.as_str());
                m
            },
        }
    }
}

} // verus!
