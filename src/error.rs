use vstd::prelude::*;

verus! {

/// The failures that the note operations report.
///
/// Each kind carries only the data that it needs: a note id or a message.
#[derive(Debug, PartialEq, Eq)]
pub enum NoterError {
    Io(String),
    Database(String),
    Config(String),
    Encryption(String),
    InvalidTitle(String),
    NoteNotFound(i64),
    HomeDirNotFound,
    EditorNotFound,
    EditorError(String),
    InvalidInput(String),
    ExportError(String),
}

/// Shorthand for the results of this library.
pub type Result<T> = core::result::Result<T, NoterError>;

} // verus!
