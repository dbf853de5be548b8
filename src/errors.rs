//! Error kinds of the note store and of the search index.
use vstd::prelude::*;

verus! {

/// Failures of note store operations.
#[derive(Debug, Clone, PartialEq, Eq, Structural)]
pub enum NoteError {
    /// The identifier or path names no existing file.
    NotFound,
    /// The target name or path is taken by another file.
    Conflict,
    /// A malformed identifier or a path that leaves the notes directory.
    InvalidInput,
    /// A read, write or rename failed.
    IoError,
    /// Updating the search index failed.
    IndexError,
}

impl NoteError {
    /// A short description of the failure.
    pub fn message(&self) -> (r: &'static str) {
        match self {
            NoteError::NotFound => "note not found",
            NoteError::Conflict => "a file with this name already exists",
            NoteError::InvalidInput => "invalid input",
            NoteError::IoError => "file system operation failed",
            NoteError::IndexError => "search index update failed",
        }
    }
}

/// Failures of the search index.
#[derive(Debug, Clone, PartialEq, Eq)]
pub enum SearchError {
    IndexCreationError(String),
    IndexOpenError(String),
    DocumentAddError(String),
    DocumentRemoveError(String),
    QueryParseError(String),
    SearchExecutionError(String),
    SnippetGenerationError(String),
    IoError(String),
    TantivyError(String),
}

} // verus!
