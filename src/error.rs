use vstd::prelude::*;

verus! {

/// Why a site could not be compiled.
#[derive(Clone, Debug, PartialEq, Eq)]
pub enum Error {
    /// The settings could not be read.
    Config(String),
    /// A stylesheet import could not be tokenized.
    CssParse(String),
    /// A preload hint is not a legal header value.
    HeaderValue,
    /// A file could not be read, or is absent.
    Io(String),
    /// An expected anchor or entry was not found.
    NotFound,
    /// A pattern could not be compiled.
    Regex(String),
    /// A path or a file's content is not valid UTF-8.
    Utf8,
}

impl Error {
    /// A short description of the error.
    pub fn message(&self) -> (r: String)
        ensures
            match self {
                Error::Config(m) | Error::CssParse(m) | Error::Io(m) | Error::Regex(m) => r@ == m@,
                Error::HeaderValue => r@ == "invalid header value"@,
                Error::NotFound => r@ == "expected value not found"@,
                Error::Utf8 => r@ == "invalid UTF-8"@,
            },
    {
        match self {
            Error::Config(m) => m.clone(),
            Error::CssParse(m) => m.clone(),
            Error::HeaderValue => "invalid header value".to_owned(),
            Error::Io(m) => m.clone(),
            Error::NotFound => "expected value not found".to_owned(),
            Error::Regex(m) => m.clone(),
            Error::Utf8 => "invalid UTF-8".to_owned(),
        }
    }
}

} // verus!
