//! The error taxonomy of a run. Every error aborts the run; the shell around
//! the library prints the message and exits with a nonzero code.

use vstd::prelude::*;
use vstd::string::*;

verus! {

/// The failure kinds of a run, flat and non-recoverable at the point raised.
#[derive(Debug)]
pub enum GrepError {
    /// An option cluster held a character outside the recognized set;
    /// carries the offending token verbatim.
    InvalidOption(String),
    /// The positional argument count was not exactly two and usage was not requested.
    InvalidUsage,
    /// Regular-expression matching was requested but is not implemented.
    RegexUnsupported,
    /// The target path could not be opened; all underlying reasons collapse
    /// into this one kind so that no raw system error text leaks out.
    FileNotFound,
    /// The file opened but its content could not be read.
    IOFailure,
}

/// The message text reported for each error kind.
pub open spec fn error_text(e: GrepError) -> Seq<char> {
    match e {
        GrepError::InvalidOption(t) => "Invalid Option: "@ + t@,
        GrepError::InvalidUsage => "Invalid usage. Use -h for usage"@,
        GrepError::RegexUnsupported => "Regex not implemented"@,
        GrepError::FileNotFound => "No such file or directory"@,
        GrepError::IOFailure => "Could not read the file"@,
    }
}

impl GrepError {
    /// Renders the human-readable message for this error.
    pub fn message(&self) -> (m: String)
        ensures
            m@ == error_text(*self),
    {
        match self {
            GrepError::InvalidOption(t) => String::from_str("Invalid Option: ").concat(t.as_str()),
            GrepError::InvalidUsage => String::from_str("Invalid usage. Use -h for usage"),
            GrepError::RegexUnsupported => String::from_str("Regex not implemented"),
            GrepError::FileNotFound => String::from_str("No such file or directory"),
            GrepError::IOFailure => String::from_str("Could not read the file"),
        }
    }
}

} // verus!
