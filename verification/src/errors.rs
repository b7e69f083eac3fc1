//! The error type shared by every fallible operation of the editor.

use vstd::prelude::*;
use vstd::string::*;

verus! {

/// What went wrong.
#[derive(Debug, Copy, Clone, PartialEq, Eq, Structural)]
pub enum ErrorKind {
    /// The anchor is not in the buffer's anchor table.
    NoSuchAnchor,
    /// The position is not a place in the text: its line is gone, or the line
    /// ends before the offset.
    NoLineAtPosition,
    /// A command other than a horizontal or vertical move reached the mover.
    UnsupportedMoveCommand,
    /// The buffer has no file path to save to.
    NoFilePath,
    /// Reading, writing or running something outside the editor failed.
    Io,
    /// A command other than `Scroll` reached the scroll primitive.
    InvalidScrollCommand,
    /// A wrap policy other than plain truncation reached the projector.
    InvalidWrapConfiguration,
}

/// The description that an error of each kind carries when the editing core raises it.
pub open spec fn kind_text(kind: ErrorKind) -> Seq<char> {
    match kind {
        ErrorKind::NoSuchAnchor => "no such anchor"@,
        ErrorKind::NoLineAtPosition => "no line at position"@,
        ErrorKind::UnsupportedMoveCommand => "unsupported move command"@,
        ErrorKind::NoFilePath => "cannot save with no file path"@,
        ErrorKind::Io => "i/o error"@,
        ErrorKind::InvalidScrollCommand => "invalid scroll command"@,
        ErrorKind::InvalidWrapConfiguration => "unsupported wrap"@,
    }
}

#[derive(Debug)]
pub struct CrbError {
    pub kind: ErrorKind,
    pub description: String,
}

pub type CrbResult<T> = Result<T, CrbError>;

/// The kind of the error where the result is one.
pub open spec fn failure(r: CrbResult<()>) -> Option<ErrorKind> {
    match r {
        Ok(()) => None,
        Err(e) => Some(e.kind),
    }
}

/// An error in the result carries the standard description of its kind.
pub open spec fn described(r: CrbResult<()>) -> bool {
    r matches Err(e) ==> e.description@ == kind_text(e.kind)
}

impl CrbError {
    /// An I/O failure, described in the words of whoever met it.
    pub fn new(description: &str) -> (e: CrbError)
        ensures
            e.kind == ErrorKind::Io,
            e.description@ == description@,
    {
        CrbError { kind: ErrorKind::Io, description: String::from_str(description) }
    }

    /// An error of the given kind with that kind's standard description.
    pub fn of_kind(kind: ErrorKind) -> (e: CrbError)
        ensures
            e.kind == kind,
            e.description@ == kind_text(kind),
    {
        let text: &str = match kind {
            ErrorKind::NoSuchAnchor => "no such anchor",
            ErrorKind::NoLineAtPosition => "no line at position",
            ErrorKind::UnsupportedMoveCommand => "unsupported move command",
            ErrorKind::NoFilePath => "cannot save with no file path",
            ErrorKind::Io => "i/o error",
            ErrorKind::InvalidScrollCommand => "invalid scroll command",
            ErrorKind::InvalidWrapConfiguration => "unsupported wrap",
        };
        CrbError { kind: kind, description: String::from_str(text) }
    }

    pub fn description(&self) -> (s: &str)
        ensures
            s@ == self.description@,
    {
        self.description.as_str()
    }

    /// The error as one line of text for a log or a status bar.
    pub fn message(&self) -> (s: String)
        ensures
            s@ == "Crb error: "@ + self.description@,
    {
        String::from_str("Crb error: ").concat(self.description.as_str())
    }
}

} // verus!
