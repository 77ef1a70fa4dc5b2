//! Errors of the library, each with the message it reads as.
use vstd::prelude::*;
use crate::text::concat;

verus! {

/// What can go wrong in the library's own logic.
#[derive(Debug, PartialEq, Eq)]
pub enum PeasError {
    Config(String),
    NotFound(String),
    InvalidId(String),
    Storage(String),
    Parse(String),
    /// A file could not be read or written; the text of the I/O error.
    Io(String),
    /// YAML that could not be read or written; the text of its error.
    Yaml(String),
    /// JSON that could not be read or written; the text of its error.
    Json(String),
    Validation(String),
    NotInitialized,
    AlreadyInitialized(String),
}

/// The message of an error, as the error reads when shown to a user.
pub open spec fn error_message(e: PeasError) -> Seq<char> {
    match e {
        PeasError::Config(s) => "Configuration error: "@ + s@,
        PeasError::NotFound(s) => "Pea not found: "@ + s@,
        PeasError::InvalidId(s) => "Invalid pea ID: "@ + s@,
        PeasError::Storage(s) => "Storage error: "@ + s@,
        PeasError::Parse(s) => "Parse error: "@ + s@,
        PeasError::Io(s) => "IO error: "@ + s@,
        PeasError::Yaml(s) => "YAML error: "@ + s@,
        PeasError::Json(s) => "JSON error: "@ + s@,
        PeasError::Validation(s) => "Validation error: "@ + s@,
        PeasError::NotInitialized => "Project not initialized. Run 'peas init' first."@,
        PeasError::AlreadyInitialized(s) => "Project already initialized at "@ + s@,
    }
}

impl PeasError {
    /// The message of this error.
    pub fn message(&self) -> (r: String)
        ensures
            r@ == error_message(*self),
    {
        match self {
            PeasError::Config(s) => concat("Configuration error: ", s.as_str()),
            PeasError::NotFound(s) => concat("Pea not found: ", s.as_str()),
            PeasError::InvalidId(s) => concat("Invalid pea ID: ", s.as_str()),
            PeasError::Storage(s) => concat("Storage error: ", s.as_str()),
            PeasError::Parse(s) => concat("Parse error: ", s.as_str()),
            PeasError::Io(s) => concat("IO error: ", s.as_str()),
            PeasError::Yaml(s) => concat("YAML error: ", s.as_str()),
            PeasError::Json(s) => concat("JSON error: ", s.as_str()),
            PeasError::Validation(s) => concat("Validation error: ", s.as_str()),
            PeasError::NotInitialized => "Project not initialized. Run 'peas init' first.".to_owned(),
            PeasError::AlreadyInitialized(s) => concat(
                "Project already initialized at ",
                s.as_str(),
            ),
        }
    }

    /// The same message as `message`, under the name callers of `Display`
    /// expect.
    pub fn to_string(&self) -> (r: String)
        ensures
            r@ == error_message(*self),
    {
        self.message()
    }
}

} // verus!
