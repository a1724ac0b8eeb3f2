//! The errors a run can end with, and the exact message each one renders to.

use vstd::prelude::*;

verus! {

/// Everything that can go wrong in a run. A run stops at the first of these;
/// none is retried or recovered internally.
#[derive(Debug)]
pub enum ApplicationError {
    /// No query was given.
    NotEnoughArguments,
    /// The query could not be compiled as a regular expression.
    InvalidRegex(String),
    /// A file or directory could not be read.
    FileNotFound(String),
    /// A directory's entries could not be listed.
    DirectoryReadError(String),
    /// A directory was given as a source, but recursive search is off.
    DirectoryWithoutRecursive,
    /// An argument starting with `-` is not a known flag.
    InvalidFlag(String),
    /// Reading an input stream failed; holds the underlying error's message.
    IOError(String),
    /// The help flag was given; the caller prints usage instead of searching.
    HelpRequested,
}

/// The message that `message` renders for each error.
pub open spec fn spec_message(e: &ApplicationError) -> Seq<char> {
    match e {
        ApplicationError::NotEnoughArguments => "Error: Not enough arguments provided. A query and file paths are required."@,
        ApplicationError::InvalidRegex(q) => "Error: Invalid regular expression: '"@ + q@ + "'"@,
        ApplicationError::FileNotFound(f) => "Error: File '"@ + f@ + "' not found."@,
        ApplicationError::DirectoryReadError(p) => "Error reading directory '"@ + p@ + "'."@,
        ApplicationError::DirectoryWithoutRecursive => "Error: You provided a directory, but did not use the '-R' option for recursive search."@,
        ApplicationError::InvalidFlag(f) => "Error: Invalid flag '"@ + f@ + "'."@,
        ApplicationError::IOError(m) => "I/O Error: "@ + m@,
        ApplicationError::HelpRequested => "Help requested."@,
    }
}

impl ApplicationError {
    /// The human-readable description of this error.
    pub fn message(&self) -> (r: String)
        ensures
            r@ == spec_message(self),
    {
        match self {
            ApplicationError::NotEnoughArguments => String::from_str(
                "Error: Not enough arguments provided. A query and file paths are required.",
            ),
            ApplicationError::InvalidRegex(q) => String::from_str(
                "Error: Invalid regular expression: '",
            ).concat(q.as_str()).concat("'"),
            ApplicationError::FileNotFound(f) => String::from_str("Error: File '").concat(
                f.as_str(),
            ).concat("' not found."),
            ApplicationError::DirectoryReadError(p) => String::from_str(
                "Error reading directory '",
            ).concat(p.as_str()).concat("'."),
            ApplicationError::DirectoryWithoutRecursive => String::from_str(
                "Error: You provided a directory, but did not use the '-R' option for recursive search.",
            ),
            ApplicationError::InvalidFlag(f) => String::from_str("Error: Invalid flag '").concat(
                f.as_str(),
            ).concat("'."),
            ApplicationError::IOError(m) => String::from_str("I/O Error: ").concat(m.as_str()),
            ApplicationError::HelpRequested => String::from_str("Help requested."),
        }
    }
}

} // verus!
