//! Structured error taxonomy: every fallible step of the library reports
//! exactly one of a closed set of kinds, and the underlying diagnostic text
//! is preserved for inspection.

use vstd::prelude::*;

verus! {

/// The closed set of failure kinds this library reports.
#[derive(Debug, PartialEq)]
pub enum ErrorKind {
    /// A payload failed to parse as the expected JSON shape.
    Decode(String),
    /// The underlying HTTP send failed (network-level failure).
    Transport(String),
    /// An endpoint and path could not be assembled into a valid URL.
    UrlParse(String),
    /// A required external configuration value was missing.
    EnvLookup(String),
    /// The remote returned a non-200 status: the status code and the raw
    /// response body, kept verbatim for diagnostics.
    Http(u16, String),
}

/// A structured failure; exactly one kind per instance.
#[derive(Debug, PartialEq)]
pub struct Error {
    pub kind: ErrorKind,
}

impl Error {
    /// Wraps a kind into an `Error`.
    pub fn new(kind: ErrorKind) -> (e: Error)
        ensures
            e.kind == kind,
    {
        Error { kind }
    }

    /// Return the specific kind of this error.
    pub fn kind(&self) -> (k: &ErrorKind)
        ensures
            k == &self.kind,
    {
        &self.kind
    }

    /// The diagnostic text carried by this error: the underlying cause where
    /// one exists, or the raw response body for an HTTP status failure.
    pub fn message(&self) -> (m: &String)
        ensures
            m == match self.kind {
                ErrorKind::Decode(ref s) => s,
                ErrorKind::Transport(ref s) => s,
                ErrorKind::UrlParse(ref s) => s,
                ErrorKind::EnvLookup(ref s) => s,
                ErrorKind::Http(_, ref s) => s,
            },
    {
        match &self.kind {
            ErrorKind::Decode(s) => s,
            ErrorKind::Transport(s) => s,
            ErrorKind::UrlParse(s) => s,
            ErrorKind::EnvLookup(s) => s,
            ErrorKind::Http(_, s) => s,
        }
    }
}

/// Builds the error for a non-200 HTTP status, carrying the status and the
/// response body verbatim.
pub fn new_http_error(status: u16, body: String) -> (e: Error)
    ensures
        e.kind == ErrorKind::Http(status, body),
{
    Error::new(ErrorKind::Http(status, body))
}

} // verus!
