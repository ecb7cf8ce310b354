//! The library's error kinds. Each carries the context a caller needs to
//! report the failure: the offending template's diagnostic name, the file
//! path, or the parameter name.

use vstd::prelude::*;

verus! {

/// What went wrong, with the originating context attached.
#[derive(Debug, Clone, PartialEq)]
pub enum ApixError {
    /// A template failed to register or render; `name` is the diagnostic
    /// template name (for instance `file.yaml#/url`), `cause` the engine's
    /// words.
    Template { name: String, cause: String },
    /// Interactive parameter resolution failed.
    Parameter(String),
    /// A manifest of the wrong kind where a Request was expected.
    Manifest(String),
    /// A file could not be opened, read or written; holds the path.
    Io(String),
    /// The HTTP layer failed; holds its words.
    Http(String),
    /// Encoding or decoding failed; holds the cause.
    Serialization(String),
}

/// The message text for each error kind: a fixed prefix, then the carried
/// context.
pub open spec fn spec_message(e: ApixError) -> Seq<char> {
    match e {
        ApixError::Template { name, cause } => "template error in "@ + name@ + ": "@ + cause@,
        ApixError::Parameter(s) => "parameter error: "@ + s@,
        ApixError::Manifest(s) => "manifest error: "@ + s@,
        ApixError::Io(s) => "io error: "@ + s@,
        ApixError::Http(s) => "http error: "@ + s@,
        ApixError::Serialization(s) => "serialization error: "@ + s@,
    }
}

impl ApixError {
    /// A human-readable message; stands in for trait-based formatting.
    pub fn message(&self) -> (r: String)
        ensures
            r@ == spec_message(*self),
    {
        match self {
            ApixError::Template { name, cause } => {
                let mut out = String::from_str("template error in ");
                out.append(name.as_str());
                out.append(": ");
                out.append(cause.as_str());
                out
            },
            ApixError::Parameter(s) => {
                let mut out = String::from_str("parameter error: ");
                out.append(s.as_str());
                out
            },
            ApixError::Manifest(s) => {
                let mut out = String::from_str("manifest error: ");
                out.append(s.as_str());
                out
            },
            ApixError::Io(s) => {
                let mut out = String::from_str("io error: ");
                out.append(s.as_str());
                out
            },
            ApixError::Http(s) => {
                let mut out = String::from_str("http error: ");
                out.append(s.as_str());
                out
            },
            ApixError::Serialization(s) => {
                let mut out = String::from_str("serialization error: ");
                out.append(s.as_str());
                out
            },
        }
    }
}

} // verus!
